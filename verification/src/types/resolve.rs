//! Reading written types.
use crate::ast::{Expr, Literal, Type, UnaryOp};
use crate::ast_tree::{trees, Syntax};
use crate::text::{i64_without_underscores, same_text};
use crate::types::laws::{first_inference_stays, has_param, mark_nothing, substitute_nothing};
use crate::types::model;
use crate::types::names::{lookup, Names};
use crate::types::params::{
    has_name, hold_none, inference_binds_parts, inside, marking_is_done_at_once,
    marking_takes_its_names, nothing_to_infer, substitution_is_done_at_once,
    substitution_takes_its_parameters,
};
use crate::types::rules::{
    all_without_params, args_without_params, const_value, holds_param, is_float, is_integer,
    is_numeric, lookup_name, mark, mark_all, primitive, read, resolve, resolve_all, substitute,
    substitute_all, unify, unify_all, without_params, Reading,
};
use crate::types::ty::{GenericArg, Ty};
use vstd::prelude::*;

verus! {

pub(super) fn ty_is_integer(t: &Ty) -> (r: bool)
    ensures
        r == is_integer(t.tree()),
{
    proof {
        t.unfold();
    }
    matches!(t, Ty::I8 | Ty::I16 | Ty::I32 | Ty::I64 | Ty::I128 | Ty::Isize | Ty::U8 | Ty::U16
        | Ty::U32 | Ty::U64 | Ty::U128 | Ty::Usize)
}

pub(super) fn ty_is_float(t: &Ty) -> (r: bool)
    ensures
        r == is_float(t.tree()),
{
    proof {
        t.unfold();
    }
    matches!(t, Ty::F32 | Ty::F64)
}

pub(super) fn ty_is_numeric(t: &Ty) -> (r: bool)
    ensures
        r == is_numeric(t.tree()),
{
    ty_is_integer(t) || ty_is_float(t)
}

/// The type that a primitive's name stands for.
pub(super) fn resolve_primitive(s: &String) -> (r: Ty)
    ensures
        r.tree() == primitive(s@),
{
    let name = s.as_str();
    let r = if same_text(name, "i8") {
        Ty::I8
    } else if same_text(name, "i16") {
        Ty::I16
    } else if same_text(name, "i32") {
        Ty::I32
    } else if same_text(name, "i64") {
        Ty::I64
    } else if same_text(name, "i128") {
        Ty::I128
    } else if same_text(name, "isize") {
        Ty::Isize
    } else if same_text(name, "u8") {
        Ty::U8
    } else if same_text(name, "u16") {
        Ty::U16
    } else if same_text(name, "u32") {
        Ty::U32
    } else if same_text(name, "u64") {
        Ty::U64
    } else if same_text(name, "u128") {
        Ty::U128
    } else if same_text(name, "usize") {
        Ty::Usize
    } else if same_text(name, "f32") {
        Ty::F32
    } else if same_text(name, "f64") {
        Ty::F64
    } else if same_text(name, "bool") {
        Ty::Bool
    } else if same_text(name, "char") {
        Ty::Char
    } else if same_text(name, "String") {
        Ty::StringTy
    } else if same_text(name, "str") {
        Ty::Str
    } else {
        Ty::Named(s.clone())
    };
    proof {
        r.unfold();
    }
    r
}

/// The type that a written type stands for. A name is taken as it is, whether or not it is
/// declared, and without its generic arguments.
pub fn resolve_type(t: &Type) -> (r: Ty)
    ensures
        r.tree() == resolve(t.tree()),
    decreases t, 1nat,
{
    proof {
        t.unfold();
    }
    let r = match t {
        Type::Primitive(s) => {
            return resolve_primitive(s);
        },
        Type::Named(n, _) => Ty::Named(n.clone()),
        Type::Array(inner, _) => Ty::Array(Box::new(resolve_type(inner))),
        Type::Tuple(ts) => Ty::Tuple(resolve_types(ts)),
        Type::Ref { mutable, inner, .. } => Ty::Ref(*mutable, Box::new(resolve_type(inner))),
        Type::Dyn(n, _) => Ty::DynTrait(n.clone()),
        Type::Fn(ps, result) => Ty::Fn(resolve_types(ps), Box::new(resolve_type(result))),
        Type::Option(inner) => Ty::OptionTy(Box::new(resolve_type(inner))),
        Type::Result(o, e) => Ty::ResultTy(Box::new(resolve_type(o)), Box::new(resolve_type(e))),
        Type::Unit => Ty::Unit,
        Type::Never => Ty::Never,
        Type::ConstArg(_) => Ty::Unit,
    };
    proof {
        r.unfold();
    }
    r
}

fn resolve_types(ts: &Vec<Type>) -> (r: Vec<Ty>)
    ensures
        trees(r@) == resolve_all(trees(ts@)),
    decreases ts, 0nat,
{
    let mut r: Vec<Ty> = Vec::new();
    let mut i: usize = 0;
    while i < ts.len()
        invariant
            i <= ts@.len(),
            r@.len() == i,
            forall|k: int| 0 <= k < i ==> (#[trigger] r@[k]).tree() == resolve(ts@[k].tree()),
        decreases ts@.len() - i,
    {
        r.push(resolve_type(&ts[i]));
        i = i + 1;
    }
    assert(trees(r@) =~= resolve_all(trees(ts@)));
    r
}

/// The value of a generic argument: an integer literal, perhaps with minus signs in front.
/// Underscores in the literal do not count.
pub(super) fn const_int_value(e: &Expr) -> (r: Option<i64>)
    ensures
        r == const_value(e.tree()),
    decreases e,
{
    proof {
        e.unfold();
    }
    match e {
        Expr::Literal(l) => {
            proof {
                l.unfold();
            }
            match l {
                Literal::Int(s) => i64_without_underscores(s.as_str()),
                _ => None,
            }
        },
        Expr::Unary { op: UnaryOp::Neg, expr } => match const_int_value(expr) {
            Some(n) => if n == i64::MIN {
                Some(n)
            } else {
                Some(-n)
            },
            None => None,
        },
        _ => None,
    }
}

/// With each type parameter replaced by what `subst` has for it. Where the types in `subst`
/// hold no type parameter, those in `subst` and no others are gone, and a second pass changes
/// nothing.
pub fn substitute_type_params(t: &Ty, subst: &Names<Ty>) -> (r: Ty)
    ensures
        r.tree() == substitute(t.tree(), subst.tree()),
        t.tree() matches model::Ty::TypeParam(n) ==> (lookup(subst.tree(), n) matches Some(x)
            ==> r.tree() == x),
        subst.tree().len() == 0 ==> r.tree() == t.tree(),
        hold_none(subst.tree()) ==> forall|n: Seq<char>| #[trigger]
            has_param(r.tree(), n) <==> has_param(t.tree(), n) && lookup(subst.tree(), n) is None,
        hold_none(subst.tree()) ==> substitute(r.tree(), subst.tree()) == r.tree(),
{
    let r = substitute_in(t, subst);
    proof {
        let values = subst.tree();
        if values.len() == 0 {
            assert(values =~= seq![]);
            substitute_nothing(t.tree());
        }
        if hold_none(values) {
            assert forall|n: Seq<char>| #[trigger]
                has_param(r.tree(), n) <==> has_param(t.tree(), n) && lookup(values, n) is None by {
                substitution_takes_its_parameters(t.tree(), values, n);
            }
            substitution_is_done_at_once(t.tree(), values);
        }
    }
    r
}

fn substitute_in(t: &Ty, subst: &Names<Ty>) -> (r: Ty)
    ensures
        r.tree() == substitute(t.tree(), subst.tree()),
    decreases t, 1nat,
{
    proof {
        t.unfold();
    }
    let r = match t {
        Ty::TypeParam(n) => {
            return match subst.get(n.as_str()) {
                Some(x) => x.copy(),
                None => t.copy(),
            };
        },
        Ty::Array(e) => Ty::Array(Box::new(substitute_in(e, subst))),
        Ty::Tuple(ts) => Ty::Tuple(substitute_types(ts, subst)),
        Ty::Ref(m, e) => Ty::Ref(*m, Box::new(substitute_in(e, subst))),
        Ty::OptionTy(e) => Ty::OptionTy(Box::new(substitute_in(e, subst))),
        Ty::ResultTy(o, e) => Ty::ResultTy(
            Box::new(substitute_in(o, subst)),
            Box::new(substitute_in(e, subst)),
        ),
        Ty::Fn(ps, result) => Ty::Fn(
            substitute_types(ps, subst),
            Box::new(substitute_in(result, subst)),
        ),
        _ => {
            return t.copy();
        },
    };
    proof {
        r.unfold();
    }
    r
}

fn substitute_types(ts: &Vec<Ty>, subst: &Names<Ty>) -> (r: Vec<Ty>)
    ensures
        trees(r@) == substitute_all(trees(ts@), subst.tree()),
    decreases ts, 0nat,
{
    let mut r: Vec<Ty> = Vec::new();
    let mut i: usize = 0;
    while i < ts.len()
        invariant
            i <= ts@.len(),
            r@.len() == i,
            forall|k: int|
                0 <= k < i ==> (#[trigger] r@[k]).tree() == substitute(
                    ts@[k].tree(),
                    subst.tree(),
                ),
        decreases ts@.len() - i,
    {
        r.push(substitute_in(&ts[i], subst));
        i = i + 1;
    }
    assert(trees(r@) =~= substitute_all(trees(ts@), subst.tree()));
    r
}

/// Whether a type parameter stands anywhere in a type.
pub(super) fn holds_type_param(t: &Ty) -> (r: bool)
    ensures
        r == holds_param(t.tree()),
    decreases t, 1nat,
{
    proof {
        t.unfold();
    }
    match t {
        Ty::TypeParam(_) => true,
        Ty::Array(e) => holds_type_param(e),
        Ty::Tuple(ts) => any_holds_type_param(ts),
        Ty::Ref(_, e) => holds_type_param(e),
        Ty::Generic(_, args) => any_arg_holds_type_param(args),
        Ty::OptionTy(e) => holds_type_param(e),
        Ty::ResultTy(o, e) => holds_type_param(o) || holds_type_param(e),
        Ty::Fn(ps, result) => holds_type_param(result) || any_holds_type_param(ps),
        _ => false,
    }
}

fn any_arg_holds_type_param(args: &Vec<GenericArg>) -> (r: bool)
    ensures
        r == exists|i: int|
            0 <= i < trees(args@).len() && (#[trigger] trees(args@)[i]) is Type && holds_param(
                trees(args@)[i]->Type_0,
            ),
    decreases args, 0nat,
{
    let mut i: usize = 0;
    while i < args.len()
        invariant
            i <= args@.len(),
            forall|k: int|
                0 <= k < i ==> !((#[trigger] trees(args@)[k]) is Type && holds_param(
                    trees(args@)[k]->Type_0,
                )),
        decreases args@.len() - i,
    {
        let arg = &args[i];
        proof {
            arg.unfold();
        }
        assert(trees(args@)[i as int] == arg.tree());
        if let GenericArg::Type(x) = arg {
            if holds_type_param(x) {
                return true;
            }
        }
        i = i + 1;
    }
    false
}

fn any_holds_type_param(ts: &Vec<Ty>) -> (r: bool)
    ensures
        r == exists|i: int| 0 <= i < trees(ts@).len() && holds_param(#[trigger] trees(ts@)[i]),
    decreases ts, 0nat,
{
    let mut i: usize = 0;
    while i < ts.len()
        invariant
            i <= ts@.len(),
            forall|k: int| 0 <= k < i ==> !holds_param(#[trigger] trees(ts@)[k]),
        decreases ts@.len() - i,
    {
        assert(trees(ts@)[i as int] == ts@[i as int].tree());
        if holds_type_param(&ts[i]) {
            return true;
        }
        i = i + 1;
    }
    false
}

/// With `()` in place of each type parameter.
pub(super) fn without_type_params(t: &Ty) -> (r: Ty)
    ensures
        r.tree() == without_params(t.tree()),
    decreases t, 1nat,
{
    proof {
        t.unfold();
    }
    let r = match t {
        Ty::TypeParam(_) => Ty::Unit,
        Ty::Array(e) => Ty::Array(Box::new(without_type_params(e))),
        Ty::Tuple(ts) => Ty::Tuple(types_without_params(ts)),
        Ty::Ref(m, e) => Ty::Ref(*m, Box::new(without_type_params(e))),
        Ty::Generic(n, args) => Ty::Generic(n.clone(), arguments_without_params(args)),
        Ty::OptionTy(e) => Ty::OptionTy(Box::new(without_type_params(e))),
        Ty::ResultTy(o, e) => Ty::ResultTy(
            Box::new(without_type_params(o)),
            Box::new(without_type_params(e)),
        ),
        Ty::Fn(ps, result) => Ty::Fn(
            types_without_params(ps),
            Box::new(without_type_params(result)),
        ),
        _ => {
            return t.copy();
        },
    };
    proof {
        r.unfold();
    }
    r
}

fn types_without_params(ts: &Vec<Ty>) -> (r: Vec<Ty>)
    ensures
        trees(r@) == all_without_params(trees(ts@)),
    decreases ts, 0nat,
{
    let mut r: Vec<Ty> = Vec::new();
    let mut i: usize = 0;
    while i < ts.len()
        invariant
            i <= ts@.len(),
            r@.len() == i,
            forall|k: int|
                0 <= k < i ==> (#[trigger] r@[k]).tree() == without_params(ts@[k].tree()),
        decreases ts@.len() - i,
    {
        r.push(without_type_params(&ts[i]));
        i = i + 1;
    }
    assert(trees(r@) =~= all_without_params(trees(ts@)));
    r
}

fn arguments_without_params(args: &Vec<GenericArg>) -> (r: Vec<GenericArg>)
    ensures
        trees(r@) == args_without_params(trees(args@)),
    decreases args, 0nat,
{
    let mut r: Vec<GenericArg> = Vec::new();
    let mut i: usize = 0;
    while i < args.len()
        invariant
            i <= args@.len(),
            r@.len() == i,
            forall|k: int|
                0 <= k < i ==> (#[trigger] r@[k]).tree() == args_without_params(trees(args@))[k],
        decreases args@.len() - i,
    {
        let arg = &args[i];
        let made = match arg {
            GenericArg::Type(t) => GenericArg::Type(without_type_params(t)),
            GenericArg::Const(n) => GenericArg::Const(*n),
        };
        proof {
            arg.unfold();
            made.unfold();
            assert(trees(args@)[i as int] == arg.tree());
        }
        r.push(made);
        i = i + 1;
    }
    assert(trees(r@) =~= args_without_params(trees(args@)));
    r
}

/// Whether a text is among some texts.
pub(super) fn has_text(texts: &Vec<String>, s: &str) -> (r: bool)
    ensures
        r == trees(texts@).contains(s@),
{
    let mut i: usize = 0;
    while i < texts.len()
        invariant
            i <= texts@.len(),
            forall|k: int| 0 <= k < i ==> (#[trigger] trees(texts@)[k]) != s@,
        decreases texts@.len() - i,
    {
        if same_text(texts[i].as_str(), s) {
            assert(trees(texts@)[i as int] == s@);
            return true;
        }
        i = i + 1;
    }
    false
}

/// With each of the names as a type parameter. None of the names is left, nothing else is
/// changed, and a second pass changes nothing.
pub fn mark_type_params(t: &Ty, names: &Vec<String>) -> (r: Ty)
    ensures
        r.tree() == mark(t.tree(), trees(names@)),
        names@.len() == 0 ==> r.tree() == t.tree(),
        forall|n: Seq<char>| #[trigger]
            has_name(r.tree(), n) <==> has_name(t.tree(), n) && !trees(names@).contains(n),
        forall|n: Seq<char>| #[trigger]
            has_param(r.tree(), n) <==> has_param(t.tree(), n) || (has_name(t.tree(), n) && trees(
                names@,
            ).contains(n)),
        mark(r.tree(), trees(names@)) == r.tree(),
{
    let r = mark_in(t, names);
    proof {
        let all = trees(names@);
        if names@.len() == 0 {
            assert(all =~= seq![]);
            mark_nothing(t.tree());
        }
        assert forall|n: Seq<char>| #[trigger]
            has_name(r.tree(), n) <==> has_name(t.tree(), n) && !all.contains(n) by {
            marking_takes_its_names(t.tree(), all, n);
        }
        assert forall|n: Seq<char>| #[trigger]
            has_param(r.tree(), n) <==> has_param(t.tree(), n) || (has_name(t.tree(), n)
                && all.contains(n)) by {
            marking_takes_its_names(t.tree(), all, n);
        }
        marking_is_done_at_once(t.tree(), all);
    }
    r
}

fn mark_in(t: &Ty, names: &Vec<String>) -> (r: Ty)
    ensures
        r.tree() == mark(t.tree(), trees(names@)),
    decreases t, 1nat,
{
    proof {
        t.unfold();
    }
    let r = match t {
        Ty::Named(n) => if has_text(names, n.as_str()) {
            Ty::TypeParam(n.clone())
        } else {
            Ty::Named(n.clone())
        },
        Ty::Array(e) => Ty::Array(Box::new(mark_in(e, names))),
        Ty::Tuple(ts) => Ty::Tuple(mark_types(ts, names)),
        Ty::Ref(m, e) => Ty::Ref(*m, Box::new(mark_in(e, names))),
        Ty::OptionTy(e) => Ty::OptionTy(Box::new(mark_in(e, names))),
        Ty::ResultTy(o, e) => Ty::ResultTy(
            Box::new(mark_in(o, names)),
            Box::new(mark_in(e, names)),
        ),
        Ty::Fn(ps, result) => Ty::Fn(
            mark_types(ps, names),
            Box::new(mark_in(result, names)),
        ),
        _ => {
            return t.copy();
        },
    };
    proof {
        r.unfold();
    }
    r
}

fn mark_types(ts: &Vec<Ty>, names: &Vec<String>) -> (r: Vec<Ty>)
    ensures
        trees(r@) == mark_all(trees(ts@), trees(names@)),
    decreases ts, 0nat,
{
    let mut r: Vec<Ty> = Vec::new();
    let mut i: usize = 0;
    while i < ts.len()
        invariant
            i <= ts@.len(),
            r@.len() == i,
            forall|k: int|
                0 <= k < i ==> (#[trigger] r@[k]).tree() == mark(ts@[k].tree(), trees(names@)),
        decreases ts@.len() - i,
    {
        r.push(mark_in(&ts[i], names));
        i = i + 1;
    }
    assert(trees(r@) =~= mark_all(trees(ts@), trees(names@)));
    r
}

/// Adds to `out` what the type parameters in `p` are for `a`. The first type found for a
/// parameter stays. What is added stands in `p` as a type parameter, and is a part of `a`.
pub fn unify_infer(p: &Ty, a: &Ty, out: &mut Names<Ty>)
    ensures
        final(out).tree() == unify(p.tree(), a.tree(), old(out).tree()),
        forall|n: Seq<char>|
            lookup(old(out).tree(), n) is Some ==> #[trigger] lookup(final(out).tree(), n)
                == lookup(old(out).tree(), n),
        forall|n: Seq<char>|
            lookup(old(out).tree(), n) is None && (#[trigger] lookup(final(out).tree(), n)) is Some
                ==> has_param(p.tree(), n) && inside(lookup(final(out).tree(), n)->0, a.tree()),
        !holds_param(p.tree()) ==> final(out).tree() == old(out).tree(),
{
    let ghost before = out.tree();
    unify_in(p, a, out);
    proof {
        let after = out.tree();
        assert forall|n: Seq<char>| lookup(before, n) is Some implies #[trigger] lookup(after, n)
            == lookup(before, n) by {
            first_inference_stays(p.tree(), a.tree(), before, n);
        }
        assert forall|n: Seq<char>|
            lookup(before, n) is None && (#[trigger] lookup(after, n)) is Some implies has_param(
            p.tree(),
            n,
        ) && inside(lookup(after, n)->0, a.tree()) by {
            inference_binds_parts(p.tree(), a.tree(), before, n);
        }
        if !holds_param(p.tree()) {
            nothing_to_infer(p.tree(), a.tree(), before);
        }
    }
}

fn unify_in(p: &Ty, a: &Ty, out: &mut Names<Ty>)
    ensures
        final(out).tree() == unify(p.tree(), a.tree(), old(out).tree()),
    decreases p, 1nat,
{
    proof {
        p.unfold();
        a.unfold();
    }
    match (p, a) {
        (Ty::TypeParam(n), _) => {
            if !out.contains_key(n.as_str()) {
                out.insert(n.clone(), a.copy());
            }
        },
        (Ty::Array(x), Ty::Array(y)) => unify_in(x, y, out),
        (Ty::Ref(_, x), Ty::Ref(_, y)) => unify_in(x, y, out),
        (Ty::Tuple(xs), Ty::Tuple(ys)) => {
            if xs.len() == ys.len() {
                unify_types(xs, ys, xs.len(), out);
            }
        },
        _ => {},
    }
}

/// As `unify_infer`, on the first `n` of two lists.
pub(super) fn unify_types(ps: &Vec<Ty>, xs: &Vec<Ty>, n: usize, out: &mut Names<Ty>)
    requires
        n <= ps@.len(),
        n <= xs@.len(),
    ensures
        final(out).tree() == unify_all(trees(ps@), trees(xs@), n as nat, old(out).tree()),
    decreases ps, 0nat,
{
    let mut i: usize = 0;
    while i < n
        invariant
            i <= n,
            n <= ps@.len(),
            n <= xs@.len(),
            out.tree() == unify_all(trees(ps@), trees(xs@), i as nat, old(out).tree()),
        decreases n - i,
    {
        unify_in(&ps[i], &xs[i], out);
        i = i + 1;
    }
}

/// The name under which the `impl` blocks of a type are registered.
pub(super) fn ty_lookup_name(t: &Ty) -> (r: Option<String>)
    ensures
        match r {
            Some(s) => lookup_name(t.tree()) == Some(s@),
            None => lookup_name(t.tree()) is None,
        },
{
    proof {
        t.unfold();
    }
    let name = match t {
        Ty::Named(n) => {
            return Some(n.clone());
        },
        Ty::Generic(n, _) => {
            return Some(n.clone());
        },
        Ty::I8 => "i8",
        Ty::I16 => "i16",
        Ty::I32 => "i32",
        Ty::I64 => "i64",
        Ty::I128 => "i128",
        Ty::Isize => "isize",
        Ty::U8 => "u8",
        Ty::U16 => "u16",
        Ty::U32 => "u32",
        Ty::U64 => "u64",
        Ty::U128 => "u128",
        Ty::Usize => "usize",
        Ty::F32 => "f32",
        Ty::F64 => "f64",
        Ty::Bool => "bool",
        Ty::Char => "char",
        Ty::StringTy => "String",
        Ty::Str => "str",
        _ => {
            return None;
        },
    };
    Some(name.to_owned())
}

/// How the types of a signature are read: as they are written, with some names as type
/// parameters, or with `Self` as a certain type.
pub enum How<'a> {
    Plain,
    Marked(&'a Vec<String>),
    Within(&'a Ty),
}

impl<'a> How<'a> {
    pub open spec fn reading(self) -> Reading {
        match self {
            How::Plain => Reading::Plain,
            How::Marked(names) => Reading::Marked(trees(names@)),
            How::Within(own) => Reading::Within(own.tree()),
        }
    }

    pub fn read_type(&self, t: &Type) -> (r: Ty)
        ensures
            r.tree() == read(t.tree(), self.reading()),
    {
        let plain = resolve_type(t);
        match self {
            How::Plain => plain,
            How::Marked(names) => mark_type_params(&plain, names),
            How::Within(own) => {
                let mut names: Vec<String> = Vec::new();
                names.push("Self".to_owned());
                assert(trees(names@) =~= seq!["Self"@]);
                let mut subst: Names<Ty> = Names::new();
                subst.insert("Self".to_owned(), own.copy());
                assert(subst.tree() =~= seq![("Self"@, own.tree())]);
                substitute_type_params(&mark_type_params(&plain, &names), &subst)
            },
        }
    }

    pub fn read_types(&self, ts: &Vec<Type>) -> (r: Vec<Ty>)
        ensures
            trees(r@) == crate::types::rules::read_all(trees(ts@), self.reading()),
    {
        let mut r: Vec<Ty> = Vec::new();
        let mut i: usize = 0;
        while i < ts.len()
            invariant
                i <= ts@.len(),
                r@.len() == i,
                forall|k: int|
                    0 <= k < i ==> (#[trigger] r@[k]).tree() == read(
                        ts@[k].tree(),
                        self.reading(),
                    ),
            decreases ts@.len() - i,
        {
            r.push(self.read_type(&ts[i]));
            i = i + 1;
        }
        assert(trees(r@) =~= crate::types::rules::read_all(trees(ts@), self.reading()));
        r
    }
}

} // verus!
