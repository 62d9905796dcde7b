//! The type checker.
pub mod annotations;
mod bodies;
pub mod branches;
mod checker;
pub mod checks;
pub mod compounds;
pub mod declared;
mod env;
pub mod growth;
pub mod laws;
pub mod model;
pub mod names;
pub mod order;
pub mod params;
pub mod permutation;
pub mod pieces;
mod registry;
mod resolve;
pub mod rules;
pub mod shapes;
pub mod ty;

pub use self::bodies::Ctx;
pub use self::checker::{nothing, TypeChecker};
pub use self::env::Env;
pub use self::resolve::{mark_type_params, resolve_type, substitute_type_params, unify_infer};
pub use self::shapes::{
    EnumShape, FnSig, FunctionShape, ImplRecord, ParamKind, StructShape, TraitShape,
};
pub use self::ty::{GenericArg, Ty, TypeError};
