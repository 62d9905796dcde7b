//! What is kept of each declaration.
use crate::ast_tree::{opt_tree, trees, Syntax};
use crate::types::model;
use crate::types::names::{entries, Names};
use crate::types::ty::Ty;
use vstd::prelude::*;

verus! {

/// A generic parameter of a declaration: a type with the traits that it names as bounds, or a
/// constant with its type.
#[derive(Debug, Clone, PartialEq)]
pub enum ParamKind {
    Type { name: String, bounds: Vec<String> },
    Const { name: String, ty: Ty },
}

/// A struct: its fields, and its generic parameters in order. The fields of a tuple struct
/// have their numbers as names. A field of the type of a generic parameter has the type
/// `Ty::TypeParam`.
#[derive(Debug, Clone)]
pub struct StructShape {
    pub fields: Vec<(String, Ty)>,
    pub is_tuple: bool,
    pub generics: Vec<ParamKind>,
}

/// An enum: its variants with the types that they carry, and its generic parameters.
#[derive(Debug, Clone)]
pub struct EnumShape {
    pub variants: Vec<(String, Vec<Ty>)>,
    pub generics: Vec<ParamKind>,
}

/// The signature of a method, without the receiver. A trait's method with a default body
/// need not be provided by an `impl`.
#[derive(Debug, Clone)]
pub struct FnSig {
    pub params: Vec<Ty>,
    pub ret: Ty,
    pub has_default_body: bool,
}

/// A trait: the methods that it declares.
#[derive(Debug, Clone)]
pub struct TraitShape {
    pub methods: Names<FnSig>,
}

/// An `impl` block: the methods that it provides, and the trait, unless it is inherent.
#[derive(Debug, Clone)]
pub struct ImplRecord {
    pub trait_name: Option<String>,
    pub methods: Names<FnSig>,
}

/// A function: its signature, its generic parameters, and of its `where` clause the traits
/// that each type parameter has to satisfy.
#[derive(Debug, Clone)]
pub struct FunctionShape {
    pub params: Vec<Ty>,
    pub ret: Ty,
    pub generics: Vec<ParamKind>,
    pub bounds: Vec<(String, Vec<String>)>,
}

impl Syntax for ParamKind {
    type Tree = model::ParamKind;

    open spec fn tree(self) -> model::ParamKind {
        match self {
            ParamKind::Type { name, bounds } => model::ParamKind::Type {
                name: name@,
                bounds: trees(bounds@),
            },
            ParamKind::Const { name, ty } => model::ParamKind::Const { name: name@, ty: ty.tree() },
        }
    }
}

impl Syntax for StructShape {
    type Tree = model::StructShape;

    open spec fn tree(self) -> model::StructShape {
        model::StructShape {
            fields: entries(self.fields@),
            is_tuple: self.is_tuple,
            generics: trees(self.generics@),
        }
    }
}

impl Syntax for EnumShape {
    type Tree = model::EnumShape;

    open spec fn tree(self) -> model::EnumShape {
        model::EnumShape { variants: entries(self.variants@), generics: trees(self.generics@) }
    }
}

impl Syntax for FnSig {
    type Tree = model::FnSig;

    open spec fn tree(self) -> model::FnSig {
        model::FnSig {
            params: trees(self.params@),
            ret: self.ret.tree(),
            has_default_body: self.has_default_body,
        }
    }
}

impl Syntax for TraitShape {
    type Tree = model::TraitShape;

    open spec fn tree(self) -> model::TraitShape {
        model::TraitShape { methods: self.methods.tree() }
    }
}

impl Syntax for ImplRecord {
    type Tree = model::ImplRecord;

    open spec fn tree(self) -> model::ImplRecord {
        model::ImplRecord {
            trait_name: opt_tree(self.trait_name),
            methods: self.methods.tree(),
        }
    }
}

impl Syntax for FunctionShape {
    type Tree = model::FunctionShape;

    open spec fn tree(self) -> model::FunctionShape {
        model::FunctionShape {
            params: trees(self.params@),
            ret: self.ret.tree(),
            generics: trees(self.generics@),
            bounds: entries(self.bounds@),
        }
    }
}

} // verus!
