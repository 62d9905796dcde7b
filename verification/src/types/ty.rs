//! Resolved types.
use crate::ast_tree::{trees, Syntax};
use crate::text::{same_text, show_i64};
use crate::types::model;
use crate::types::model::{arg_text, arg_texts, problem_text, ty_text, ty_texts, Problem};
use vstd::prelude::*;
use vstd::string::StringExecFns;

verus! {

/// A resolved type.
#[derive(Debug, PartialEq)]
pub enum Ty {
    I8,
    I16,
    I32,
    I64,
    I128,
    Isize,
    U8,
    U16,
    U32,
    U64,
    U128,
    Usize,
    F32,
    F64,
    Bool,
    Char,
    StringTy,
    Str,
    Unit,
    Never,
    Array(Box<Ty>),
    Tuple(Vec<Ty>),
    Ref(bool, Box<Ty>),
    /// A struct or enum by name, without generic arguments.
    Named(String),
    /// A generic struct or enum with its arguments: `Matrix<f64, 2, 3>` is `Matrix` with a
    /// type and two values.
    Generic(String, Vec<GenericArg>),
    /// A type parameter of the enclosing declaration.
    TypeParam(String),
    /// `dyn Trait`: known only to implement the trait.
    DynTrait(String),
    OptionTy(Box<Ty>),
    ResultTy(Box<Ty>, Box<Ty>),
    Fn(Vec<Ty>, Box<Ty>),
    /// The type of the literal `null`.
    Null,
}

/// A generic argument: a type or a value.
#[derive(Debug, PartialEq)]
pub enum GenericArg {
    Type(Ty),
    Const(i64),
}

/// The mathematical value of a type.
#[verifier::opaque]
pub open spec fn ty_tree(t: Ty) -> model::Ty
    decreases t,
{
    match t {
        Ty::I8 => model::Ty::I8,
        Ty::I16 => model::Ty::I16,
        Ty::I32 => model::Ty::I32,
        Ty::I64 => model::Ty::I64,
        Ty::I128 => model::Ty::I128,
        Ty::Isize => model::Ty::Isize,
        Ty::U8 => model::Ty::U8,
        Ty::U16 => model::Ty::U16,
        Ty::U32 => model::Ty::U32,
        Ty::U64 => model::Ty::U64,
        Ty::U128 => model::Ty::U128,
        Ty::Usize => model::Ty::Usize,
        Ty::F32 => model::Ty::F32,
        Ty::F64 => model::Ty::F64,
        Ty::Bool => model::Ty::Bool,
        Ty::Char => model::Ty::Char,
        Ty::StringTy => model::Ty::StringTy,
        Ty::Str => model::Ty::Str,
        Ty::Unit => model::Ty::Unit,
        Ty::Never => model::Ty::Never,
        Ty::Array(e) => model::Ty::Array(Box::new(ty_tree(*e))),
        Ty::Tuple(ts) => model::Ty::Tuple(ty_trees(ts@)),
        Ty::Ref(m, e) => model::Ty::Ref(m, Box::new(ty_tree(*e))),
        Ty::Named(n) => model::Ty::Named(n@),
        Ty::Generic(n, args) => model::Ty::Generic(n@, generic_arg_trees(args@)),
        Ty::TypeParam(n) => model::Ty::TypeParam(n@),
        Ty::DynTrait(n) => model::Ty::DynTrait(n@),
        Ty::OptionTy(e) => model::Ty::OptionTy(Box::new(ty_tree(*e))),
        Ty::ResultTy(o, e) => model::Ty::ResultTy(Box::new(ty_tree(*o)), Box::new(ty_tree(*e))),
        Ty::Fn(ps, r) => model::Ty::Fn(ty_trees(ps@), Box::new(ty_tree(*r))),
        Ty::Null => model::Ty::Null,
    }
}

pub open spec fn ty_trees(v: Seq<Ty>) -> Seq<model::Ty>
    decreases v,
{
    Seq::new(
        v.len(),
        |i: int|
            if 0 <= i < v.len() {
                ty_tree(v[i])
            } else {
                arbitrary()
            },
    )
}

#[verifier::opaque]
pub open spec fn generic_arg_tree(a: GenericArg) -> model::GenericArg
    decreases a,
{
    match a {
        GenericArg::Type(t) => model::GenericArg::Type(ty_tree(t)),
        GenericArg::Const(n) => model::GenericArg::Const(n),
    }
}

pub open spec fn generic_arg_trees(v: Seq<GenericArg>) -> Seq<model::GenericArg>
    decreases v,
{
    Seq::new(
        v.len(),
        |i: int|
            if 0 <= i < v.len() {
                generic_arg_tree(v[i])
            } else {
                arbitrary()
            },
    )
}

impl Syntax for Ty {
    type Tree = model::Ty;

    open spec fn tree(self) -> model::Ty {
        ty_tree(self)
    }
}

impl Syntax for GenericArg {
    type Tree = model::GenericArg;

    open spec fn tree(self) -> model::GenericArg {
        generic_arg_tree(self)
    }
}

proof fn ty_trees_are(v: Seq<Ty>)
    ensures
        ty_trees(v) == trees(v),
{
    reveal(ty_tree);
    assert(ty_trees(v) =~= trees(v));
}

proof fn generic_arg_trees_are(v: Seq<GenericArg>)
    ensures
        generic_arg_trees(v) == trees(v),
{
    reveal(generic_arg_tree);
    assert(generic_arg_trees(v) =~= trees(v));
}

/// The value of an optional type.
pub open spec fn opt_ty(t: Option<&Ty>) -> Option<model::Ty> {
    match t {
        Some(t) => Some(t.tree()),
        None => None,
    }
}

impl GenericArg {
    pub proof fn unfold(self)
        ensures
            self.tree() == (match self {
                GenericArg::Type(t) => model::GenericArg::Type(t.tree()),
                GenericArg::Const(n) => model::GenericArg::Const(n),
            }),
    {
        reveal(generic_arg_tree);
        reveal(ty_tree);
    }

    pub fn copy(&self) -> (r: GenericArg)
        ensures
            r.tree() == self.tree(),
        decreases self, 1nat,
    {
        let r = match self {
            GenericArg::Type(t) => GenericArg::Type(t.copy()),
            GenericArg::Const(n) => GenericArg::Const(*n),
        };
        proof {
            self.unfold();
            r.unfold();
        }
        r
    }

    /// Whether two arguments are the same.
    pub fn same(&self, other: &GenericArg) -> (r: bool)
        ensures
            r == (self.tree() == other.tree()),
        decreases self, 1nat,
    {
        proof {
            self.unfold();
            other.unfold();
        }
        match (self, other) {
            (GenericArg::Type(a), GenericArg::Type(b)) => a.same(b),
            (GenericArg::Const(a), GenericArg::Const(b)) => *a == *b,
            _ => false,
        }
    }

    /// The argument as it is written in messages.
    pub fn show(&self) -> (r: String)
        ensures
            r@ == arg_text(self.tree()),
        decreases self, 1nat,
    {
        proof {
            self.unfold();
        }
        match self {
            GenericArg::Type(t) => t.show(),
            GenericArg::Const(n) => show_i64(*n),
        }
    }
}

impl Ty {
    pub proof fn unfold(self)
        ensures
            self.tree() == (match self {
                Ty::I8 => model::Ty::I8,
                Ty::I16 => model::Ty::I16,
                Ty::I32 => model::Ty::I32,
                Ty::I64 => model::Ty::I64,
                Ty::I128 => model::Ty::I128,
                Ty::Isize => model::Ty::Isize,
                Ty::U8 => model::Ty::U8,
                Ty::U16 => model::Ty::U16,
                Ty::U32 => model::Ty::U32,
                Ty::U64 => model::Ty::U64,
                Ty::U128 => model::Ty::U128,
                Ty::Usize => model::Ty::Usize,
                Ty::F32 => model::Ty::F32,
                Ty::F64 => model::Ty::F64,
                Ty::Bool => model::Ty::Bool,
                Ty::Char => model::Ty::Char,
                Ty::StringTy => model::Ty::StringTy,
                Ty::Str => model::Ty::Str,
                Ty::Unit => model::Ty::Unit,
                Ty::Never => model::Ty::Never,
                Ty::Array(e) => model::Ty::Array(Box::new(e.tree())),
                Ty::Tuple(ts) => model::Ty::Tuple(trees(ts@)),
                Ty::Ref(m, e) => model::Ty::Ref(m, Box::new(e.tree())),
                Ty::Named(n) => model::Ty::Named(n@),
                Ty::Generic(n, args) => model::Ty::Generic(n@, trees(args@)),
                Ty::TypeParam(n) => model::Ty::TypeParam(n@),
                Ty::DynTrait(n) => model::Ty::DynTrait(n@),
                Ty::OptionTy(e) => model::Ty::OptionTy(Box::new(e.tree())),
                Ty::ResultTy(o, e) => model::Ty::ResultTy(Box::new(o.tree()), Box::new(e.tree())),
                Ty::Fn(ps, r) => model::Ty::Fn(trees(ps@), Box::new(r.tree())),
                Ty::Null => model::Ty::Null,
            }),
    {
        reveal(ty_tree);
        match self {
            Ty::Tuple(ts) => {
                ty_trees_are(ts@);
            },
            Ty::Generic(_, args) => {
                generic_arg_trees_are(args@);
            },
            Ty::Fn(ps, _) => {
                ty_trees_are(ps@);
            },
            _ => {},
        }
    }

    pub fn copy(&self) -> (r: Ty)
        ensures
            r.tree() == self.tree(),
        decreases self, 1nat,
    {
        let r = match self {
            Ty::I8 => Ty::I8,
            Ty::I16 => Ty::I16,
            Ty::I32 => Ty::I32,
            Ty::I64 => Ty::I64,
            Ty::I128 => Ty::I128,
            Ty::Isize => Ty::Isize,
            Ty::U8 => Ty::U8,
            Ty::U16 => Ty::U16,
            Ty::U32 => Ty::U32,
            Ty::U64 => Ty::U64,
            Ty::U128 => Ty::U128,
            Ty::Usize => Ty::Usize,
            Ty::F32 => Ty::F32,
            Ty::F64 => Ty::F64,
            Ty::Bool => Ty::Bool,
            Ty::Char => Ty::Char,
            Ty::StringTy => Ty::StringTy,
            Ty::Str => Ty::Str,
            Ty::Unit => Ty::Unit,
            Ty::Never => Ty::Never,
            Ty::Array(e) => Ty::Array(Box::new(e.copy())),
            Ty::Tuple(ts) => Ty::Tuple(copy_types(ts)),
            Ty::Ref(m, e) => Ty::Ref(*m, Box::new(e.copy())),
            Ty::Named(n) => Ty::Named(n.clone()),
            Ty::Generic(n, args) => Ty::Generic(n.clone(), copy_args(args)),
            Ty::TypeParam(n) => Ty::TypeParam(n.clone()),
            Ty::DynTrait(n) => Ty::DynTrait(n.clone()),
            Ty::OptionTy(e) => Ty::OptionTy(Box::new(e.copy())),
            Ty::ResultTy(o, e) => Ty::ResultTy(Box::new(o.copy()), Box::new(e.copy())),
            Ty::Fn(ps, r) => Ty::Fn(copy_types(ps), Box::new(r.copy())),
            Ty::Null => Ty::Null,
        };
        proof {
            self.unfold();
            r.unfold();
        }
        r
    }

    /// Whether two types are the same.
    pub fn same(&self, other: &Ty) -> (r: bool)
        ensures
            r == (self.tree() == other.tree()),
        decreases self, 1nat,
    {
        proof {
            self.unfold();
            other.unfold();
        }
        match (self, other) {
            (Ty::I8, Ty::I8) => true,
            (Ty::I16, Ty::I16) => true,
            (Ty::I32, Ty::I32) => true,
            (Ty::I64, Ty::I64) => true,
            (Ty::I128, Ty::I128) => true,
            (Ty::Isize, Ty::Isize) => true,
            (Ty::U8, Ty::U8) => true,
            (Ty::U16, Ty::U16) => true,
            (Ty::U32, Ty::U32) => true,
            (Ty::U64, Ty::U64) => true,
            (Ty::U128, Ty::U128) => true,
            (Ty::Usize, Ty::Usize) => true,
            (Ty::F32, Ty::F32) => true,
            (Ty::F64, Ty::F64) => true,
            (Ty::Bool, Ty::Bool) => true,
            (Ty::Char, Ty::Char) => true,
            (Ty::StringTy, Ty::StringTy) => true,
            (Ty::Str, Ty::Str) => true,
            (Ty::Unit, Ty::Unit) => true,
            (Ty::Never, Ty::Never) => true,
            (Ty::Array(a), Ty::Array(b)) => a.same(b),
            (Ty::Tuple(a), Ty::Tuple(b)) => same_types(a, b),
            (Ty::Ref(m, a), Ty::Ref(n, b)) => *m == *n && a.same(b),
            (Ty::Named(a), Ty::Named(b)) => same_text(a.as_str(), b.as_str()),
            (Ty::Generic(a, x), Ty::Generic(b, y)) => same_text(a.as_str(), b.as_str())
                && same_args(x, y),
            (Ty::TypeParam(a), Ty::TypeParam(b)) => same_text(a.as_str(), b.as_str()),
            (Ty::DynTrait(a), Ty::DynTrait(b)) => same_text(a.as_str(), b.as_str()),
            (Ty::OptionTy(a), Ty::OptionTy(b)) => a.same(b),
            (Ty::ResultTy(a, x), Ty::ResultTy(b, y)) => a.same(b) && x.same(y),
            (Ty::Fn(a, x), Ty::Fn(b, y)) => same_types(a, b) && x.same(y),
            (Ty::Null, Ty::Null) => true,
            _ => false,
        }
    }

    /// The type as it is written in messages.
    pub fn show(&self) -> (r: String)
        ensures
            r@ == ty_text(self.tree()),
        decreases self, 1nat,
    {
        proof {
            self.unfold();
        }
        match self {
            Ty::I8 => "i8".to_owned(),
            Ty::I16 => "i16".to_owned(),
            Ty::I32 => "i32".to_owned(),
            Ty::I64 => "i64".to_owned(),
            Ty::I128 => "i128".to_owned(),
            Ty::Isize => "isize".to_owned(),
            Ty::U8 => "u8".to_owned(),
            Ty::U16 => "u16".to_owned(),
            Ty::U32 => "u32".to_owned(),
            Ty::U64 => "u64".to_owned(),
            Ty::U128 => "u128".to_owned(),
            Ty::Usize => "usize".to_owned(),
            Ty::F32 => "f32".to_owned(),
            Ty::F64 => "f64".to_owned(),
            Ty::Bool => "bool".to_owned(),
            Ty::Char => "char".to_owned(),
            Ty::StringTy => "String".to_owned(),
            Ty::Str => "str".to_owned(),
            Ty::Unit => "()".to_owned(),
            Ty::Never => "!".to_owned(),
            Ty::Array(e) => "[".to_owned().concat(e.show().as_str()).concat("]"),
            Ty::Tuple(ts) => "(".to_owned().concat(show_types(ts).as_str()).concat(")"),
            Ty::Ref(m, e) => {
                let mutable = if *m {
                    "mut "
                } else {
                    ""
                };
                "&".to_owned().concat(mutable).concat(e.show().as_str())
            },
            Ty::Named(n) => n.clone(),
            Ty::Generic(n, args) => n.clone().concat("<").concat(show_args(args).as_str()).concat(
                ">",
            ),
            Ty::TypeParam(n) => n.clone(),
            Ty::DynTrait(n) => "dyn ".to_owned().concat(n.as_str()),
            Ty::OptionTy(e) => "Option<".to_owned().concat(e.show().as_str()).concat(">"),
            Ty::ResultTy(o, e) => "Result<".to_owned().concat(o.show().as_str()).concat(
                ", ",
            ).concat(e.show().as_str()).concat(">"),
            Ty::Fn(ps, r) => "fn(".to_owned().concat(show_types(ps).as_str()).concat(
                ") -> ",
            ).concat(r.show().as_str()),
            Ty::Null => "null".to_owned(),
        }
    }
}

impl Clone for GenericArg {
    fn clone(&self) -> (r: GenericArg)
        ensures
            r.tree() == self.tree(),
    {
        self.copy()
    }
}

impl Clone for Ty {
    fn clone(&self) -> (r: Ty)
        ensures
            r.tree() == self.tree(),
    {
        self.copy()
    }
}

pub fn copy_types(ts: &Vec<Ty>) -> (r: Vec<Ty>)
    ensures
        trees(r@) == trees(ts@),
    decreases ts, 0nat,
{
    let mut r: Vec<Ty> = Vec::new();
    let mut i: usize = 0;
    while i < ts.len()
        invariant
            i <= ts@.len(),
            r@.len() == i,
            forall|k: int| 0 <= k < i ==> (#[trigger] r@[k]).tree() == ts@[k].tree(),
        decreases ts@.len() - i,
    {
        r.push(ts[i].copy());
        i = i + 1;
    }
    assert(trees(r@) =~= trees(ts@));
    r
}

pub fn copy_args(args: &Vec<GenericArg>) -> (r: Vec<GenericArg>)
    ensures
        trees(r@) == trees(args@),
    decreases args, 0nat,
{
    let mut r: Vec<GenericArg> = Vec::new();
    let mut i: usize = 0;
    while i < args.len()
        invariant
            i <= args@.len(),
            r@.len() == i,
            forall|k: int| 0 <= k < i ==> (#[trigger] r@[k]).tree() == args@[k].tree(),
        decreases args@.len() - i,
    {
        r.push(args[i].copy());
        i = i + 1;
    }
    assert(trees(r@) =~= trees(args@));
    r
}

pub fn same_types(a: &Vec<Ty>, b: &Vec<Ty>) -> (r: bool)
    ensures
        r == (trees(a@) == trees(b@)),
    decreases a, 0nat,
{
    assert(trees(a@).len() == a@.len() && trees(b@).len() == b@.len());
    if a.len() != b.len() {
        return false;
    }
    let mut i: usize = 0;
    while i < a.len()
        invariant
            i <= a@.len(),
            a@.len() == b@.len(),
            forall|k: int| 0 <= k < i ==> (#[trigger] a@[k]).tree() == b@[k].tree(),
        decreases a@.len() - i,
    {
        if !a[i].same(&b[i]) {
            assert(trees(a@)[i as int] != trees(b@)[i as int]);
            return false;
        }
        i = i + 1;
    }
    assert(trees(a@) =~= trees(b@));
    true
}

pub fn same_args(a: &Vec<GenericArg>, b: &Vec<GenericArg>) -> (r: bool)
    ensures
        r == (trees(a@) == trees(b@)),
    decreases a, 0nat,
{
    assert(trees(a@).len() == a@.len() && trees(b@).len() == b@.len());
    if a.len() != b.len() {
        return false;
    }
    let mut i: usize = 0;
    while i < a.len()
        invariant
            i <= a@.len(),
            a@.len() == b@.len(),
            forall|k: int| 0 <= k < i ==> (#[trigger] a@[k]).tree() == b@[k].tree(),
        decreases a@.len() - i,
    {
        if !a[i].same(&b[i]) {
            assert(trees(a@)[i as int] != trees(b@)[i as int]);
            return false;
        }
        i = i + 1;
    }
    assert(trees(a@) =~= trees(b@));
    true
}

/// Types with commas between them.
fn show_types(ts: &Vec<Ty>) -> (r: String)
    ensures
        r@ == ty_texts(trees(ts@), ts@.len()),
    decreases ts, 0nat,
{
    assert(trees(ts@).len() == ts@.len());
    if ts.len() == 0 {
        return "".to_owned();
    }
    let mut r = ts[0].show();
    let mut i: usize = 1;
    while i < ts.len()
        invariant
            1 <= i <= ts@.len(),
            r@ == ty_texts(trees(ts@), i as nat),
        decreases ts@.len() - i,
    {
        r = r.concat(", ").concat(ts[i].show().as_str());
        i = i + 1;
    }
    r
}

/// Generic arguments with commas between them.
fn show_args(args: &Vec<GenericArg>) -> (r: String)
    ensures
        r@ == arg_texts(trees(args@), args@.len()),
    decreases args, 0nat,
{
    assert(trees(args@).len() == args@.len());
    if args.len() == 0 {
        return "".to_owned();
    }
    let mut r = args[0].show();
    let mut i: usize = 1;
    while i < args.len()
        invariant
            1 <= i <= args@.len(),
            r@ == arg_texts(trees(args@), i as nat),
        decreases args@.len() - i,
    {
        r = r.concat(", ").concat(args[i].show().as_str());
        i = i + 1;
    }
    r
}

/// A type error: what is wrong, and in which declaration.
#[derive(Debug, Clone, PartialEq)]
pub struct TypeError {
    pub message: String,
    pub context: String,
}

impl Syntax for TypeError {
    type Tree = Problem;

    open spec fn tree(self) -> Problem {
        Problem { message: self.message@, context: self.context@ }
    }
}

impl TypeError {
    /// The error as it is printed.
    pub fn show(&self) -> (r: String)
        ensures
            r@ == problem_text(self.tree()),
    {
        "type error in `".to_owned().concat(self.context.as_str()).concat("`: ").concat(
            self.message.as_str(),
        )
    }
}

} // verus!
