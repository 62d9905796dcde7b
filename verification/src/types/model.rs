//! Types and declarations as mathematical values.
use crate::text::int_text;
use vstd::prelude::*;

verus! {

/// A resolved type.
pub enum Ty {
    I8,
    I16,
    I32,
    I64,
    I128,
    Isize,
    U8,
    U16,
    U32,
    U64,
    U128,
    Usize,
    F32,
    F64,
    Bool,
    Char,
    StringTy,
    Str,
    Unit,
    Never,
    Array(Box<Ty>),
    Tuple(Seq<Ty>),
    Ref(bool, Box<Ty>),
    Named(Seq<char>),
    Generic(Seq<char>, Seq<GenericArg>),
    TypeParam(Seq<char>),
    DynTrait(Seq<char>),
    OptionTy(Box<Ty>),
    ResultTy(Box<Ty>, Box<Ty>),
    Fn(Seq<Ty>, Box<Ty>),
    Null,
}

/// A generic argument: a type or a value.
pub enum GenericArg {
    Type(Ty),
    Const(i64),
}

/// A generic parameter of a declaration: a type with the traits that it names as bounds, or a
/// constant with its type.
pub enum ParamKind {
    Type { name: Seq<char>, bounds: Seq<Seq<char>> },
    Const { name: Seq<char>, ty: Ty },
}

pub struct StructShape {
    pub fields: Seq<(Seq<char>, Ty)>,
    pub is_tuple: bool,
    pub generics: Seq<ParamKind>,
}

pub struct EnumShape {
    pub variants: Seq<(Seq<char>, Seq<Ty>)>,
    pub generics: Seq<ParamKind>,
}

pub struct FnSig {
    pub params: Seq<Ty>,
    pub ret: Ty,
    pub has_default_body: bool,
}

pub struct TraitShape {
    pub methods: Seq<(Seq<char>, FnSig)>,
}

pub struct ImplRecord {
    pub trait_name: Option<Seq<char>>,
    pub methods: Seq<(Seq<char>, FnSig)>,
}

pub struct FunctionShape {
    pub params: Seq<Ty>,
    pub ret: Ty,
    pub generics: Seq<ParamKind>,
    pub bounds: Seq<(Seq<char>, Seq<Seq<char>>)>,
}

/// What is declared, by name; of the `impl` blocks each with the name of its target.
pub struct Registry {
    pub structs: Map<Seq<char>, StructShape>,
    pub enums: Map<Seq<char>, EnumShape>,
    pub functions: Map<Seq<char>, FunctionShape>,
    pub traits: Map<Seq<char>, TraitShape>,
    pub impls: Seq<(Seq<char>, ImplRecord)>,
}

/// What is wrong, and in which declaration.
pub struct Problem {
    pub message: Seq<char>,
    pub context: Seq<char>,
}

/// A type as it is written in messages.
pub open spec fn ty_text(t: Ty) -> Seq<char>
    decreases t, 0nat,
{
    match t {
        Ty::I8 => "i8"@,
        Ty::I16 => "i16"@,
        Ty::I32 => "i32"@,
        Ty::I64 => "i64"@,
        Ty::I128 => "i128"@,
        Ty::Isize => "isize"@,
        Ty::U8 => "u8"@,
        Ty::U16 => "u16"@,
        Ty::U32 => "u32"@,
        Ty::U64 => "u64"@,
        Ty::U128 => "u128"@,
        Ty::Usize => "usize"@,
        Ty::F32 => "f32"@,
        Ty::F64 => "f64"@,
        Ty::Bool => "bool"@,
        Ty::Char => "char"@,
        Ty::StringTy => "String"@,
        Ty::Str => "str"@,
        Ty::Unit => "()"@,
        Ty::Never => "!"@,
        Ty::Array(e) => "["@ + ty_text(*e) + "]"@,
        Ty::Tuple(ts) => "("@ + ty_texts(ts, ts.len()) + ")"@,
        Ty::Ref(m, e) => "&"@ + (if m {
            "mut "@
        } else {
            ""@
        }) + ty_text(*e),
        Ty::Named(n) => n,
        Ty::Generic(n, args) => n + "<"@ + arg_texts(args, args.len()) + ">"@,
        Ty::TypeParam(n) => n,
        Ty::DynTrait(n) => "dyn "@ + n,
        Ty::OptionTy(e) => "Option<"@ + ty_text(*e) + ">"@,
        Ty::ResultTy(o, e) => "Result<"@ + ty_text(*o) + ", "@ + ty_text(*e) + ">"@,
        Ty::Fn(ps, r) => "fn("@ + ty_texts(ps, ps.len()) + ") -> "@ + ty_text(*r),
        Ty::Null => "null"@,
    }
}

/// The first `n` of some types, with commas between them.
pub open spec fn ty_texts(ts: Seq<Ty>, n: nat) -> Seq<char>
    decreases ts, n,
{
    if n == 0 || n > ts.len() {
        ""@
    } else if n == 1 {
        ty_text(ts[0])
    } else {
        ty_texts(ts, (n - 1) as nat) + ", "@ + ty_text(ts[n - 1])
    }
}

pub open spec fn arg_text(a: GenericArg) -> Seq<char>
    decreases a, 0nat,
{
    match a {
        GenericArg::Type(t) => ty_text(t),
        GenericArg::Const(n) => int_text(n as int),
    }
}

/// The first `n` of some generic arguments, with commas between them.
pub open spec fn arg_texts(args: Seq<GenericArg>, n: nat) -> Seq<char>
    decreases args, n,
{
    if n == 0 || n > args.len() {
        ""@
    } else if n == 1 {
        arg_text(args[0])
    } else {
        arg_texts(args, (n - 1) as nat) + ", "@ + arg_text(args[n - 1])
    }
}

/// A type error as it is printed.
pub open spec fn problem_text(p: Problem) -> Seq<char> {
    "type error in `"@ + p.context + "`: "@ + p.message
}

} // verus!
