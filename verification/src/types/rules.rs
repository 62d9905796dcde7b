//! How written types are read, and what declarations add to the registry.
use crate::ast::UnaryOp;
use crate::text::{i64_of, nat_text, without_underscores};
use crate::tree::{
    EnumDecl, Expr, FnDecl, GenericParam, ImplDecl, ImplItem, Item, ItemKind, Literal, Param,
    StructBody, StructDecl, TraitBound, TraitItem, Type, WhereBound,
};
use crate::types::model::{
    EnumShape, FnSig, FunctionShape, GenericArg, ImplRecord, ParamKind, Problem, Registry,
    StructShape, TraitShape, Ty,
};
use crate::types::names::{get, lookup, put};
use vstd::prelude::*;

verus! {

pub open spec fn is_integer(t: Ty) -> bool {
    t is I8 || t is I16 || t is I32 || t is I64 || t is I128 || t is Isize || t is U8 || t is U16
        || t is U32 || t is U64 || t is U128 || t is Usize
}

pub open spec fn is_float(t: Ty) -> bool {
    t is F32 || t is F64
}

pub open spec fn is_numeric(t: Ty) -> bool {
    is_integer(t) || is_float(t)
}

/// The type that a primitive's name stands for.
pub open spec fn primitive(s: Seq<char>) -> Ty {
    if s == "i8"@ {
        Ty::I8
    } else if s == "i16"@ {
        Ty::I16
    } else if s == "i32"@ {
        Ty::I32
    } else if s == "i64"@ {
        Ty::I64
    } else if s == "i128"@ {
        Ty::I128
    } else if s == "isize"@ {
        Ty::Isize
    } else if s == "u8"@ {
        Ty::U8
    } else if s == "u16"@ {
        Ty::U16
    } else if s == "u32"@ {
        Ty::U32
    } else if s == "u64"@ {
        Ty::U64
    } else if s == "u128"@ {
        Ty::U128
    } else if s == "usize"@ {
        Ty::Usize
    } else if s == "f32"@ {
        Ty::F32
    } else if s == "f64"@ {
        Ty::F64
    } else if s == "bool"@ {
        Ty::Bool
    } else if s == "char"@ {
        Ty::Char
    } else if s == "String"@ {
        Ty::StringTy
    } else if s == "str"@ {
        Ty::Str
    } else {
        Ty::Named(s)
    }
}

/// The type that a written type stands for, whether or not the names in it are declared.
pub open spec fn resolve(t: Type) -> Ty
    decreases t,
{
    match t {
        Type::Primitive(s) => primitive(s),
        Type::Named(n, _) => Ty::Named(n),
        Type::Array(inner, _) => Ty::Array(Box::new(resolve(*inner))),
        Type::Tuple(ts) => Ty::Tuple(resolve_all(ts)),
        Type::Ref { mutable, inner, .. } => Ty::Ref(mutable, Box::new(resolve(*inner))),
        Type::Dyn(n, _) => Ty::DynTrait(n),
        Type::Fn(ps, r) => Ty::Fn(resolve_all(ps), Box::new(resolve(*r))),
        Type::Option(inner) => Ty::OptionTy(Box::new(resolve(*inner))),
        Type::Result(o, e) => Ty::ResultTy(Box::new(resolve(*o)), Box::new(resolve(*e))),
        Type::Unit => Ty::Unit,
        Type::Never => Ty::Never,
        Type::ConstArg(_) => Ty::Unit,
    }
}

pub open spec fn resolve_all(ts: Seq<Type>) -> Seq<Ty>
    decreases ts,
{
    Seq::new(
        ts.len(),
        |i: int|
            if 0 <= i < ts.len() {
                resolve(ts[i])
            } else {
                arbitrary()
            },
    )
}

/// The negative of a number; the least number stays as it is.
pub open spec fn negative(n: i64) -> i64 {
    if n == i64::MIN {
        n
    } else {
        (-n) as i64
    }
}

/// The value of a generic argument: an integer literal, perhaps with minus signs in front.
pub open spec fn const_value(e: Expr) -> Option<i64>
    decreases e,
{
    match e {
        Expr::Literal(Literal::Int(s)) => i64_of(without_underscores(s)),
        Expr::Unary { op: UnaryOp::Neg, expr } => match const_value(*expr) {
            Some(n) => Some(negative(n)),
            None => None,
        },
        _ => None,
    }
}

/// With each type parameter replaced by what `subst` has for it. Generic arguments stay as
/// they are.
pub open spec fn substitute(t: Ty, subst: Seq<(Seq<char>, Ty)>) -> Ty
    decreases t,
{
    match t {
        Ty::TypeParam(n) => match lookup(subst, n) {
            Some(x) => x,
            None => t,
        },
        Ty::Array(e) => Ty::Array(Box::new(substitute(*e, subst))),
        Ty::Tuple(ts) => Ty::Tuple(substitute_all(ts, subst)),
        Ty::Ref(m, e) => Ty::Ref(m, Box::new(substitute(*e, subst))),
        Ty::OptionTy(e) => Ty::OptionTy(Box::new(substitute(*e, subst))),
        Ty::ResultTy(o, e) => Ty::ResultTy(
            Box::new(substitute(*o, subst)),
            Box::new(substitute(*e, subst)),
        ),
        Ty::Fn(ps, r) => Ty::Fn(substitute_all(ps, subst), Box::new(substitute(*r, subst))),
        _ => t,
    }
}

pub open spec fn substitute_all(ts: Seq<Ty>, subst: Seq<(Seq<char>, Ty)>) -> Seq<Ty>
    decreases ts,
{
    Seq::new(
        ts.len(),
        |i: int|
            if 0 <= i < ts.len() {
                substitute(ts[i], subst)
            } else {
                arbitrary()
            },
    )
}

/// Whether a type parameter stands anywhere in a type.
pub open spec fn holds_param(t: Ty) -> bool
    decreases t,
{
    match t {
        Ty::TypeParam(_) => true,
        Ty::Array(e) => holds_param(*e),
        Ty::Tuple(ts) => exists|i: int| 0 <= i < ts.len() && holds_param(#[trigger] ts[i]),
        Ty::Ref(_, e) => holds_param(*e),
        Ty::Generic(_, args) => exists|i: int|
            0 <= i < args.len() && (#[trigger] args[i]) is Type && holds_param(args[i]->Type_0),
        Ty::OptionTy(e) => holds_param(*e),
        Ty::ResultTy(o, e) => holds_param(*o) || holds_param(*e),
        Ty::Fn(ps, r) => holds_param(*r) || exists|i: int|
            0 <= i < ps.len() && holds_param(#[trigger] ps[i]),
        _ => false,
    }
}

/// With `()` in place of each type parameter.
pub open spec fn without_params(t: Ty) -> Ty
    decreases t,
{
    match t {
        Ty::TypeParam(_) => Ty::Unit,
        Ty::Array(e) => Ty::Array(Box::new(without_params(*e))),
        Ty::Tuple(ts) => Ty::Tuple(all_without_params(ts)),
        Ty::Ref(m, e) => Ty::Ref(m, Box::new(without_params(*e))),
        Ty::Generic(n, args) => Ty::Generic(n, args_without_params(args)),
        Ty::OptionTy(e) => Ty::OptionTy(Box::new(without_params(*e))),
        Ty::ResultTy(o, e) => Ty::ResultTy(
            Box::new(without_params(*o)),
            Box::new(without_params(*e)),
        ),
        Ty::Fn(ps, r) => Ty::Fn(all_without_params(ps), Box::new(without_params(*r))),
        _ => t,
    }
}

pub open spec fn all_without_params(ts: Seq<Ty>) -> Seq<Ty>
    decreases ts,
{
    Seq::new(
        ts.len(),
        |i: int|
            if 0 <= i < ts.len() {
                without_params(ts[i])
            } else {
                Ty::Unit
            },
    )
}

pub open spec fn args_without_params(args: Seq<GenericArg>) -> Seq<GenericArg>
    decreases args,
{
    Seq::new(
        args.len(),
        |i: int|
            if 0 <= i < args.len() {
                match args[i] {
                    GenericArg::Type(t) => GenericArg::Type(without_params(t)),
                    GenericArg::Const(n) => GenericArg::Const(n),
                }
            } else {
                GenericArg::Const(0)
            },
    )
}

/// With each of the names in `params` as a type parameter. Generic arguments stay as they
/// are.
pub open spec fn mark(t: Ty, params: Seq<Seq<char>>) -> Ty
    decreases t,
{
    match t {
        Ty::Named(n) => if params.contains(n) {
            Ty::TypeParam(n)
        } else {
            t
        },
        Ty::Array(e) => Ty::Array(Box::new(mark(*e, params))),
        Ty::Tuple(ts) => Ty::Tuple(mark_all(ts, params)),
        Ty::Ref(m, e) => Ty::Ref(m, Box::new(mark(*e, params))),
        Ty::OptionTy(e) => Ty::OptionTy(Box::new(mark(*e, params))),
        Ty::ResultTy(o, e) => Ty::ResultTy(Box::new(mark(*o, params)), Box::new(mark(*e, params))),
        Ty::Fn(ps, r) => Ty::Fn(mark_all(ps, params), Box::new(mark(*r, params))),
        _ => t,
    }
}

pub open spec fn mark_all(ts: Seq<Ty>, params: Seq<Seq<char>>) -> Seq<Ty>
    decreases ts,
{
    Seq::new(
        ts.len(),
        |i: int|
            if 0 <= i < ts.len() {
                mark(ts[i], params)
            } else {
                arbitrary()
            },
    )
}

/// What `out` knows of the type parameters in `p`, and what standing in the same place in
/// `a` adds. The first type found for a parameter stays.
pub open spec fn unify(p: Ty, a: Ty, out: Seq<(Seq<char>, Ty)>) -> Seq<(Seq<char>, Ty)>
    decreases p, 0nat,
{
    match (p, a) {
        (Ty::TypeParam(n), _) => if lookup(out, n) is Some {
            out
        } else {
            put(out, n, a)
        },
        (Ty::Array(x), Ty::Array(y)) => unify(*x, *y, out),
        (Ty::Ref(_, x), Ty::Ref(_, y)) => unify(*x, *y, out),
        (Ty::Tuple(xs), Ty::Tuple(ys)) => if xs.len() == ys.len() {
            unify_all(xs, ys, xs.len(), out)
        } else {
            out
        },
        _ => out,
    }
}

/// As `unify`, on the first `n` of two lists.
pub open spec fn unify_all(
    ps: Seq<Ty>,
    xs: Seq<Ty>,
    n: nat,
    out: Seq<(Seq<char>, Ty)>,
) -> Seq<(Seq<char>, Ty)>
    decreases ps, n,
{
    if n == 0 || n > ps.len() || n > xs.len() {
        out
    } else {
        unify(ps[n - 1], xs[n - 1], unify_all(ps, xs, (n - 1) as nat, out))
    }
}

/// The name under which the `impl` blocks of a type are registered.
pub open spec fn lookup_name(t: Ty) -> Option<Seq<char>> {
    match t {
        Ty::Named(n) => Some(n),
        Ty::Generic(n, _) => Some(n),
        Ty::I8 => Some("i8"@),
        Ty::I16 => Some("i16"@),
        Ty::I32 => Some("i32"@),
        Ty::I64 => Some("i64"@),
        Ty::I128 => Some("i128"@),
        Ty::Isize => Some("isize"@),
        Ty::U8 => Some("u8"@),
        Ty::U16 => Some("u16"@),
        Ty::U32 => Some("u32"@),
        Ty::U64 => Some("u64"@),
        Ty::U128 => Some("u128"@),
        Ty::Usize => Some("usize"@),
        Ty::F32 => Some("f32"@),
        Ty::F64 => Some("f64"@),
        Ty::Bool => Some("bool"@),
        Ty::Char => Some("char"@),
        Ty::StringTy => Some("String"@),
        Ty::Str => Some("str"@),
        _ => None,
    }
}

/// How the types of a signature are read: as they are written, with some names as type
/// parameters, or with `Self` as a certain type.
pub enum Reading {
    Plain,
    Marked(Seq<Seq<char>>),
    Within(Ty),
}

pub open spec fn read(t: Type, how: Reading) -> Ty {
    match how {
        Reading::Plain => resolve(t),
        Reading::Marked(names) => mark(resolve(t), names),
        Reading::Within(own) => substitute(mark(resolve(t), seq!["Self"@]), seq![("Self"@, own)]),
    }
}

/// The types of the first `n` parameters, but for the receiver.
pub open spec fn param_types(ps: Seq<Param>, how: Reading, n: nat) -> Seq<Ty>
    decreases n,
{
    if n == 0 || n > ps.len() {
        seq![]
    } else if ps[n - 1].name == "self"@ {
        param_types(ps, how, (n - 1) as nat)
    } else {
        param_types(ps, how, (n - 1) as nat).push(read(ps[n - 1].ty, how))
    }
}

/// The type that a function gives back; nothing where none is written.
pub open spec fn return_ty(t: Option<Type>, how: Reading) -> Ty {
    match t {
        Some(t) => read(t, how),
        None => Ty::Unit,
    }
}

/// The names of the traits in a bound.
pub open spec fn trait_names(bounds: Seq<TraitBound>) -> Seq<Seq<char>> {
    Seq::new(bounds.len(), |i: int| bounds[i].name)
}

pub open spec fn param_kind(p: GenericParam) -> ParamKind {
    match p {
        GenericParam::Type { name, bounds } => ParamKind::Type {
            name,
            bounds: trait_names(bounds),
        },
        GenericParam::Const { name, ty } => ParamKind::Const { name, ty: resolve(ty) },
    }
}

pub open spec fn param_kinds(ps: Seq<GenericParam>) -> Seq<ParamKind> {
    ps.map_values(|p: GenericParam| param_kind(p))
}

/// The names of the type parameters among the first `n`.
pub open spec fn type_params(ps: Seq<ParamKind>, n: nat) -> Seq<Seq<char>>
    decreases n,
{
    if n == 0 || n > ps.len() {
        seq![]
    } else {
        match ps[n - 1] {
            ParamKind::Type { name, .. } => type_params(ps, (n - 1) as nat).push(name),
            ParamKind::Const { .. } => type_params(ps, (n - 1) as nat),
        }
    }
}

/// How the types of a declaration with generic parameters are read.
pub open spec fn generic_reading(ps: Seq<GenericParam>) -> Reading {
    Reading::Marked(type_params(param_kinds(ps), ps.len()))
}

pub open spec fn read_all(ts: Seq<Type>, how: Reading) -> Seq<Ty> {
    ts.map_values(|t: Type| read(t, how))
}

pub open spec fn struct_shape(d: StructDecl) -> StructShape {
    let how = generic_reading(d.generics);
    StructShape {
        fields: match d.body {
            StructBody::Named(fs) => Seq::new(
                fs.len(),
                |i: int| (fs[i].name, read(fs[i].ty, how)),
            ),
            StructBody::Tuple(ts) => Seq::new(
                ts.len(),
                |i: int| (nat_text(i as nat), read(ts[i], how)),
            ),
            StructBody::Unit => seq![],
        },
        is_tuple: d.body is Tuple,
        generics: param_kinds(d.generics),
    }
}

pub open spec fn enum_shape(d: EnumDecl) -> EnumShape {
    let how = generic_reading(d.generics);
    EnumShape {
        variants: Seq::new(
            d.variants.len(),
            |i: int| (d.variants[i].name, read_all(d.variants[i].data, how)),
        ),
        generics: param_kinds(d.generics),
    }
}

pub open spec fn bound_names(b: WhereBound) -> (Seq<char>, Seq<Seq<char>>) {
    (b.name, trait_names(b.bounds))
}

pub open spec fn function_shape(f: FnDecl) -> FunctionShape {
    let how = generic_reading(f.generics);
    FunctionShape {
        params: param_types(f.params, how, f.params.len()),
        ret: return_ty(f.return_type, how),
        generics: param_kinds(f.generics),
        bounds: Seq::new(f.where_clause.len(), |i: int| bound_names(f.where_clause[i])),
    }
}

pub open spec fn signature(f: FnDecl, how: Reading, has_default_body: bool) -> FnSig {
    FnSig {
        params: param_types(f.params, how, f.params.len()),
        ret: return_ty(f.return_type, how),
        has_default_body,
    }
}

/// The methods among the first `n` items of a trait.
pub open spec fn trait_methods(items: Seq<TraitItem>, n: nat) -> Seq<(Seq<char>, FnSig)>
    decreases n,
{
    if n == 0 || n > items.len() {
        seq![]
    } else {
        match items[n - 1] {
            TraitItem::Fn(f) => put(
                trait_methods(items, (n - 1) as nat),
                f.name,
                signature(f, Reading::Plain, f.body is Some),
            ),
            TraitItem::AssocType(_) => trait_methods(items, (n - 1) as nat),
        }
    }
}

/// The methods among the first `n` items of an `impl` block for a type.
pub open spec fn impl_methods(items: Seq<ImplItem>, own: Ty, n: nat) -> Seq<(Seq<char>, FnSig)>
    decreases n,
{
    if n == 0 || n > items.len() {
        seq![]
    } else {
        match items[n - 1] {
            ImplItem::Fn(f) => put(
                impl_methods(items, own, (n - 1) as nat),
                f.name,
                signature(f, Reading::Within(own), true),
            ),
            ImplItem::AssocType(..) => impl_methods(items, own, (n - 1) as nat),
        }
    }
}

/// What a declaration adds to the registry. The items of a module count as its own.
pub open spec fn declare(reg: Registry, item: Item) -> Registry
    decreases item, 0nat,
{
    match item.kind {
        ItemKind::Struct(d) => Registry {
            structs: reg.structs.insert(d.name, struct_shape(d)),
            ..reg
        },
        ItemKind::Enum(d) => Registry { enums: reg.enums.insert(d.name, enum_shape(d)), ..reg },
        ItemKind::Fn(f) => Registry {
            functions: reg.functions.insert(f.name, function_shape(f)),
            ..reg
        },
        ItemKind::Trait(t) => Registry {
            traits: reg.traits.insert(t.name,
                TraitShape { methods: trait_methods(t.items, t.items.len()) },
            ),
            ..reg
        },
        ItemKind::Mod(m) => declare_all(reg, m.items, m.items.len()),
        _ => reg,
    }
}

pub open spec fn declare_all(reg: Registry, items: Seq<Item>, n: nat) -> Registry
    decreases items, n,
{
    if n == 0 || n > items.len() {
        reg
    } else {
        declare(declare_all(reg, items, (n - 1) as nat), items[n - 1])
    }
}

/// A registry and the problems found so far.
pub struct State {
    pub reg: Registry,
    pub errs: Seq<Problem>,
}

/// `impl Trait for Type`
pub open spec fn impl_title(trait_name: Seq<char>, target: Seq<char>) -> Seq<char> {
    "impl "@ + trait_name + " for "@ + target
}

pub open spec fn orphan_message(trait_name: Seq<char>, target: Seq<char>) -> Seq<char> {
    "orphan rule violation: `impl "@ + trait_name + " for "@ + target
        + "` is not allowed -- neither the trait nor the type is defined in the current package (Document 7 §5)"@
}

pub open spec fn missing_message(
    trait_name: Seq<char>,
    target: Seq<char>,
    method: Seq<char>,
) -> Seq<char> {
    "`impl "@ + trait_name + " for "@ + target + "` is missing required method `"@ + method
        + "` (Document 7 §4.2/§4.3)"@
}

/// The first `n` methods of a trait: those that an `impl` has to provide and does not.
pub open spec fn missing_methods(
    trait_name: Seq<char>,
    target: Seq<char>,
    required: Seq<(Seq<char>, FnSig)>,
    methods: Seq<(Seq<char>, FnSig)>,
    n: nat,
    errs: Seq<Problem>,
) -> Seq<Problem>
    decreases n,
{
    if n == 0 || n > required.len() {
        errs
    } else {
        let before = missing_methods(
            trait_name,
            target,
            required,
            methods,
            (n - 1) as nat,
            errs,
        );
        let (name, sig) = required[n - 1];
        if !sig.has_default_body && lookup(methods, name) is None {
            before.push(
                Problem {
                    message: missing_message(trait_name, target, name),
                    context: impl_title(trait_name, target),
                },
            )
        } else {
            before
        }
    }
}

/// Whether an `impl` stands by neither its trait nor its type.
pub open spec fn is_orphan(reg: Registry, trait_name: Seq<char>, target: Seq<char>) -> bool {
    get(reg.traits, trait_name) is None && get(reg.structs, target) is None && get(reg.enums,
        target,
    ) is None
}

/// The problems of an `impl` of a trait.
pub open spec fn impl_problems(
    reg: Registry,
    trait_name: Seq<char>,
    target: Seq<char>,
    methods: Seq<(Seq<char>, FnSig)>,
    errs: Seq<Problem>,
) -> Seq<Problem> {
    let errs = if is_orphan(reg, trait_name, target) {
        errs.push(
            Problem {
                message: orphan_message(trait_name, target),
                context: impl_title(trait_name, target),
            },
        )
    } else {
        errs
    };
    match get(reg.traits, trait_name) {
        Some(shape) => missing_methods(
            trait_name,
            target,
            shape.methods,
            methods,
            shape.methods.len(),
            errs,
        ),
        None => errs,
    }
}

/// What an `impl` block adds.
pub open spec fn add_impl(s: State, d: ImplDecl) -> State {
    let target = d.target.name;
    let methods = impl_methods(d.items, primitive(target), d.items.len());
    let trait_name = match d.trait_ref {
        Some(t) => Some(t.name),
        None => None,
    };
    State {
        reg: Registry {
            impls: s.reg.impls.push((target, ImplRecord { trait_name, methods })),
            ..s.reg
        },
        errs: match trait_name {
            Some(name) => impl_problems(s.reg, name, target, methods, s.errs),
            None => s.errs,
        },
    }
}

/// The `impl` blocks of an item.
pub open spec fn add_impls(s: State, item: Item) -> State
    decreases item, 0nat,
{
    match item.kind {
        ItemKind::Impl(d) => add_impl(s, d),
        ItemKind::Mod(m) => add_all_impls(s, m.items, m.items.len()),
        _ => s,
    }
}

pub open spec fn add_all_impls(s: State, items: Seq<Item>, n: nat) -> State
    decreases items, n,
{
    if n == 0 || n > items.len() {
        s
    } else {
        add_impls(add_all_impls(s, items, (n - 1) as nat), items[n - 1])
    }
}

/// Whether some `impl` of a trait is registered for a type.
pub open spec fn satisfies(reg: Registry, t: Ty, trait_name: Seq<char>) -> bool {
    match lookup_name(t) {
        Some(key) => exists|i: int|
            0 <= i < reg.impls.len() && (#[trigger] reg.impls[i]).0 == key
                && reg.impls[i].1.trait_name == Some(trait_name),
        None => false,
    }
}

/// The first method of a name in an inherent `impl` block of a type, from `i` on.
pub open spec fn inherent_method_from(
    impls: Seq<(Seq<char>, ImplRecord)>,
    target: Seq<char>,
    name: Seq<char>,
    i: nat,
) -> Option<FnSig>
    decreases impls.len() - i,
{
    if i >= impls.len() {
        None
    } else if impls[i as int].0 == target && impls[i as int].1.trait_name is None && lookup(
        impls[i as int].1.methods,
        name,
    ) is Some {
        lookup(impls[i as int].1.methods, name)
    } else {
        inherent_method_from(impls, target, name, i + 1)
    }
}

/// The first method of a name in any `impl` block of a type, from `i` on.
pub open spec fn any_method_from(
    impls: Seq<(Seq<char>, ImplRecord)>,
    target: Seq<char>,
    name: Seq<char>,
    i: nat,
) -> Option<FnSig>
    decreases impls.len() - i,
{
    if i >= impls.len() {
        None
    } else if impls[i as int].0 == target && lookup(impls[i as int].1.methods, name) is Some {
        lookup(impls[i as int].1.methods, name)
    } else {
        any_method_from(impls, target, name, i + 1)
    }
}

/// The method that a call on a type reaches: for a named type the first of its inherent
/// `impl` blocks, else the first of any `impl` block; for `dyn Trait` the trait's own.
pub open spec fn method(reg: Registry, t: Ty, name: Seq<char>) -> Option<FnSig> {
    match t {
        Ty::Named(n) => concrete_method(reg, n, name),
        Ty::Generic(n, _) => concrete_method(reg, n, name),
        Ty::DynTrait(n) => match get(reg.traits, n) {
            Some(shape) => lookup(shape.methods, name),
            None => None,
        },
        _ => None,
    }
}

pub open spec fn concrete_method(reg: Registry, target: Seq<char>, name: Seq<char>) -> Option<
    FnSig,
> {
    let inherent = inherent_method_from(reg.impls, target, name, 0);
    if inherent is Some {
        inherent
    } else {
        any_method_from(reg.impls, target, name, 0)
    }
}

/// What the first `n` type parameters stand for, given the arguments.
pub open spec fn type_args(ps: Seq<ParamKind>, args: Seq<GenericArg>, n: nat) -> Seq<
    (Seq<char>, Ty),
>
    decreases n,
{
    if n == 0 || n > ps.len() || n > args.len() {
        seq![]
    } else {
        let before = type_args(ps, args, (n - 1) as nat);
        match (ps[n - 1], args[n - 1]) {
            (ParamKind::Type { name, .. }, GenericArg::Type(t)) => put(before, name, t),
            _ => before,
        }
    }
}

/// As `type_args`, for as many as there are both parameters and arguments.
pub open spec fn all_type_args(ps: Seq<ParamKind>, args: Seq<GenericArg>) -> Seq<
    (Seq<char>, Ty),
> {
    type_args(
        ps,
        args,
        if ps.len() <= args.len() {
            ps.len()
        } else {
            args.len()
        },
    )
}

} // verus!
