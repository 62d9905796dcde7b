//! Registering declarations.
use crate::ast::{
    EnumDecl, FnDecl, GenericParam, ImplDecl, ImplItem, Item, ItemKind, Param, StructBody,
    StructDecl, TraitBound, TraitItem, Type, WhereBound,
};
use crate::ast_tree::{opt_tree, trees, Syntax};
use crate::text::{same_text, show_usize};
use crate::types::model;
use crate::types::names::{as_map, entries, Names};
use crate::types::resolve::{resolve_primitive, resolve_type, ty_lookup_name, How};
use crate::types::rules::{
    add_all_impls, add_impl, add_impls, any_method_from, bound_names, concrete_method, declare,
    declare_all, enum_shape, function_shape, generic_reading, impl_methods, impl_problems,
    impl_title, inherent_method_from, lookup_name, method, missing_methods, param_kind, param_kinds,
    param_types, read, read_all, return_ty, satisfies, signature, struct_shape, trait_methods,
    trait_names, type_args, type_params, State,
};
use crate::types::shapes::{
    EnumShape, FnSig, FunctionShape, ImplRecord, ParamKind, StructShape, TraitShape,
};
use crate::types::ty::{GenericArg, Ty, TypeError};
use vstd::prelude::*;
use vstd::string::StringExecFns;

verus! {

/// The names of the traits in a bound.
fn names_of_traits(bounds: &Vec<TraitBound>) -> (r: Vec<String>)
    ensures
        trees(r@) == trait_names(trees(bounds@)),
{
    let mut names: Vec<String> = Vec::new();
    let mut i: usize = 0;
    while i < bounds.len()
        invariant
            i <= bounds@.len(),
            names@.len() == i,
            forall|k: int| 0 <= k < i ==> (#[trigger] trees(names@)[k]) == trees(bounds@)[k].name,
        decreases bounds@.len() - i,
    {
        let t = &bounds[i];
        proof {
            t.unfold();
        }
        let ghost before = names@;
        names.push(t.name.clone());
        assert(forall|k: int| 0 <= k < i ==> (#[trigger] trees(names@)[k]) == trees(before)[k]);
        i = i + 1;
    }
    assert(trees(names@) =~= trait_names(trees(bounds@)));
    names
}

/// The generic parameters, with their bounds and types.
fn kinds_of(ps: &Vec<GenericParam>) -> (r: Vec<ParamKind>)
    ensures
        trees(r@) == param_kinds(trees(ps@)),
{
    let mut r: Vec<ParamKind> = Vec::new();
    let mut i: usize = 0;
    while i < ps.len()
        invariant
            i <= ps@.len(),
            r@.len() == i,
            forall|k: int| 0 <= k < i ==> (#[trigger] r@[k]).tree() == param_kind(ps@[k].tree()),
        decreases ps@.len() - i,
    {
        let p = &ps[i];
        proof {
            p.unfold();
        }
        r.push(
            match p {
                GenericParam::Type { name, bounds } => ParamKind::Type {
                    name: name.clone(),
                    bounds: names_of_traits(bounds),
                },
                GenericParam::Const { name, ty } => ParamKind::Const {
                    name: name.clone(),
                    ty: resolve_type(ty),
                },
            },
        );
        i = i + 1;
    }
    assert(trees(r@) =~= param_kinds(trees(ps@)));
    r
}

/// The names of the type parameters.
fn type_param_names(ps: &Vec<ParamKind>) -> (r: Vec<String>)
    ensures
        trees(r@) == type_params(trees(ps@), ps@.len()),
{
    let mut r: Vec<String> = Vec::new();
    let mut i: usize = 0;
    assert(trees(r@) =~= seq![]);
    while i < ps.len()
        invariant
            i <= ps@.len(),
            trees(r@) == type_params(trees(ps@), i as nat),
        decreases ps@.len() - i,
    {
        let ghost before = r@;
        if let ParamKind::Type { name, .. } = &ps[i] {
            r.push(name.clone());
            assert(trees(r@) =~= trees(before).push(name@));
        }
        i = i + 1;
    }
    r
}

/// The types of the parameters, but for the receiver.
fn types_of_params(ps: &Vec<Param>, how: &How) -> (r: Vec<Ty>)
    ensures
        trees(r@) == param_types(trees(ps@), how.reading(), ps@.len()),
{
    let mut r: Vec<Ty> = Vec::new();
    let mut i: usize = 0;
    assert(trees(r@) =~= seq![]);
    while i < ps.len()
        invariant
            i <= ps@.len(),
            trees(r@) == param_types(trees(ps@), how.reading(), i as nat),
        decreases ps@.len() - i,
    {
        let p = &ps[i];
        proof {
            p.unfold();
        }
        let ghost before = r@;
        if !same_text(p.name.as_str(), "self") {
            let t = how.read_type(&p.ty);
            r.push(t);
            assert(trees(r@) =~= trees(before).push(t.tree()));
        }
        i = i + 1;
    }
    r
}

fn type_of_return(t: &Option<Type>, how: &How) -> (r: Ty)
    ensures
        r.tree() == return_ty(opt_tree(*t), how.reading()),
{
    match t {
        Some(t) => how.read_type(t),
        None => {
            let r = Ty::Unit;
            proof {
                r.unfold();
            }
            r
        },
    }
}

fn shape_of_struct(d: &StructDecl) -> (r: StructShape)
    ensures
        r.tree() == struct_shape(d.tree()),
{
    proof {
        d.unfold();
        d.generics.unfold();
        d.body.unfold();
    }
    let generics = kinds_of(&d.generics.0);
    let names = type_param_names(&generics);
    let how = How::Marked(&names);
    assert(how.reading() == generic_reading(d.tree().generics));
    let mut fields: Vec<(String, Ty)> = Vec::new();
    let mut is_tuple = false;
    match &d.body {
        StructBody::Named(fs) => {
            let mut i: usize = 0;
            while i < fs.len()
                invariant
                    i <= fs@.len(),
                    fields@.len() == i,
                    forall|k: int|
                        0 <= k < i ==> (#[trigger] entries(fields@)[k]) == (
                            trees(fs@)[k].name,
                            read(trees(fs@)[k].ty, how.reading()),
                        ),
                decreases fs@.len() - i,
            {
                let f = &fs[i];
                proof {
                    f.unfold();
                }
                let ghost before = fields@;
                fields.push((f.name.clone(), how.read_type(&f.ty)));
                assert(forall|k: int|
                    0 <= k < i ==> (#[trigger] entries(fields@)[k]) == entries(before)[k]);
                i = i + 1;
            }
        },
        StructBody::Tuple(ts) => {
            is_tuple = true;
            let mut i: usize = 0;
            while i < ts.len()
                invariant
                    i <= ts@.len(),
                    fields@.len() == i,
                    forall|k: int|
                        0 <= k < i ==> (#[trigger] entries(fields@)[k]) == (
                            crate::text::nat_text(k as nat),
                            read(trees(ts@)[k], how.reading()),
                        ),
                decreases ts@.len() - i,
            {
                let ghost before = fields@;
                fields.push((show_usize(i), how.read_type(&ts[i])));
                assert(forall|k: int|
                    0 <= k < i ==> (#[trigger] entries(fields@)[k]) == entries(before)[k]);
                i = i + 1;
            }
        },
        StructBody::Unit => {},
    }
    let r = StructShape { fields, is_tuple, generics };
    assert(r.tree().fields =~= struct_shape(d.tree()).fields);
    r
}

fn shape_of_enum(d: &EnumDecl) -> (r: EnumShape)
    ensures
        r.tree() == enum_shape(d.tree()),
{
    proof {
        d.unfold();
        d.generics.unfold();
    }
    let generics = kinds_of(&d.generics.0);
    let names = type_param_names(&generics);
    let how = How::Marked(&names);
    let vs = &d.variants;
    let mut variants: Vec<(String, Vec<Ty>)> = Vec::new();
    let mut i: usize = 0;
    while i < vs.len()
        invariant
            i <= vs@.len(),
            variants@.len() == i,
            forall|k: int|
                0 <= k < i ==> (#[trigger] entries(variants@)[k]) == (
                    trees(vs@)[k].name,
                    read_all(trees(vs@)[k].data, how.reading()),
                ),
        decreases vs@.len() - i,
    {
        let v = &vs[i];
        proof {
            v.unfold();
        }
        let ghost before = variants@;
        variants.push((v.name.clone(), how.read_types(&v.data)));
        assert(forall|k: int|
            0 <= k < i ==> (#[trigger] entries(variants@)[k]) == entries(before)[k]);
        i = i + 1;
    }
    let r = EnumShape { variants, generics };
    assert(r.tree().variants =~= enum_shape(d.tree()).variants);
    r
}

/// A bound of a `where` clause: the parameter, and the names of the traits.
fn names_of_bound(b: &WhereBound) -> (r: (String, Vec<String>))
    ensures
        (r.0@, trees(r.1@)) == bound_names(b.tree()),
{
    proof {
        b.unfold();
    }
    (b.name.clone(), names_of_traits(&b.bounds))
}

fn shape_of_function(f: &FnDecl) -> (r: FunctionShape)
    ensures
        r.tree() == function_shape(f.tree()),
{
    proof {
        f.unfold();
        f.generics.unfold();
        f.where_clause.unfold();
    }
    let generics = kinds_of(&f.generics.0);
    let names = type_param_names(&generics);
    let how = How::Marked(&names);
    let params = types_of_params(&f.params, &how);
    let ret = type_of_return(&f.return_type, &how);
    let bs = &f.where_clause.0;
    let mut bounds: Vec<(String, Vec<String>)> = Vec::new();
    let mut i: usize = 0;
    while i < bs.len()
        invariant
            i <= bs@.len(),
            bounds@.len() == i,
            forall|k: int|
                0 <= k < i ==> (#[trigger] entries(bounds@)[k]) == bound_names(trees(bs@)[k]),
        decreases bs@.len() - i,
    {
        let ghost before = bounds@;
        bounds.push(names_of_bound(&bs[i]));
        assert(forall|k: int|
            0 <= k < i ==> (#[trigger] entries(bounds@)[k]) == entries(before)[k]);
        i = i + 1;
    }
    let r = FunctionShape { params, ret, generics, bounds };
    assert(r.tree().bounds =~= function_shape(f.tree()).bounds);
    r
}

fn signature_of(f: &FnDecl, how: &How, has_default_body: bool) -> (r: FnSig)
    ensures
        r.tree() == signature(f.tree(), how.reading(), has_default_body),
{
    proof {
        f.unfold();
    }
    FnSig {
        params: types_of_params(&f.params, how),
        ret: type_of_return(&f.return_type, how),
        has_default_body,
    }
}

fn methods_of_trait(items: &Vec<TraitItem>) -> (r: Names<FnSig>)
    ensures
        r.tree() == trait_methods(trees(items@), items@.len()),
{
    let mut r: Names<FnSig> = Names::new();
    let mut i: usize = 0;
    while i < items.len()
        invariant
            i <= items@.len(),
            r.tree() == trait_methods(trees(items@), i as nat),
        decreases items@.len() - i,
    {
        proof {
            items@[i as int].unfold();
        }
        if let TraitItem::Fn(f) = &items[i] {
            proof {
                f.unfold();
            }
            r.insert(f.name.clone(), signature_of(f, &How::Plain, f.body.is_some()));
        }
        i = i + 1;
    }
    r
}

fn methods_of_impl(items: &Vec<ImplItem>, own: &Ty) -> (r: Names<FnSig>)
    ensures
        r.tree() == impl_methods(trees(items@), own.tree(), items@.len()),
{
    let mut r: Names<FnSig> = Names::new();
    let mut i: usize = 0;
    while i < items.len()
        invariant
            i <= items@.len(),
            r.tree() == impl_methods(trees(items@), own.tree(), i as nat),
        decreases items@.len() - i,
    {
        proof {
            items@[i as int].unfold();
        }
        if let ImplItem::Fn(f) = &items[i] {
            proof {
                f.unfold();
            }
            r.insert(f.name.clone(), signature_of(f, &How::Within(own), true));
        }
        i = i + 1;
    }
    r
}

/// Adds an error to a list.
pub(super) fn note(errors: &mut Vec<TypeError>, message: String, context: String)
    ensures
        trees(final(errors)@) == trees(old(errors)@).push(
            model::Problem { message: message@, context: context@ },
        ),
{
    let ghost before = errors@;
    errors.push(TypeError { message, context });
    assert(trees(errors@) =~= trees(before).push(
        model::Problem { message: message@, context: context@ },
    ));
}

/// What is declared, by name; of the `impl` blocks each with the name of its target.
pub struct Declared {
    pub structs: Names<StructShape>,
    pub enums: Names<EnumShape>,
    pub functions: Names<FunctionShape>,
    pub traits: Names<TraitShape>,
    pub impls: Vec<(String, ImplRecord)>,
}

impl Declared {
    pub open spec fn reg(self) -> model::Registry {
        model::Registry {
            structs: as_map(self.structs.tree()),
            enums: as_map(self.enums.tree()),
            functions: as_map(self.functions.tree()),
            traits: as_map(self.traits.tree()),
            impls: entries(self.impls@),
        }
    }

    pub fn new() -> (r: Self)
        ensures
            r.reg() == (model::Registry {
                structs: Map::empty(),
                enums: Map::empty(),
                functions: Map::empty(),
                traits: Map::empty(),
                impls: seq![],
            }),
    {
        let r = Declared {
            structs: Names::new(),
            enums: Names::new(),
            functions: Names::new(),
            traits: Names::new(),
            impls: Vec::new(),
        };
        assert(r.reg().impls =~= seq![]);
        r
    }

    /// Registers what an item declares. The items of a module count as its own.
    pub fn register_item(&mut self, item: &Item)
        ensures
            final(self).reg() == declare(old(self).reg(), item.tree()),
        decreases item, 1nat,
    {
        proof {
            item.unfold();
            item.kind.unfold();
        }
        match &item.kind {
            ItemKind::Struct(d) => {
                proof {
                    d.unfold();
                }
                self.structs.insert(d.name.clone(), shape_of_struct(d));
            },
            ItemKind::Enum(d) => {
                proof {
                    d.unfold();
                }
                self.enums.insert(d.name.clone(), shape_of_enum(d));
            },
            ItemKind::Fn(f) => {
                proof {
                    f.unfold();
                }
                self.functions.insert(f.name.clone(), shape_of_function(f));
            },
            ItemKind::Trait(t) => {
                proof {
                    t.unfold();
                }
                let methods = methods_of_trait(&t.items);
                self.traits.insert(t.name.clone(), TraitShape { methods });
            },
            ItemKind::Mod(m) => {
                proof {
                    m.unfold();
                }
                self.register_items(&m.items);
            },
            _ => {},
        }
    }

    pub fn register_items(&mut self, items: &Vec<Item>)
        ensures
            final(self).reg() == declare_all(old(self).reg(), trees(items@), items@.len()),
        decreases items, 0nat,
    {
        let mut i: usize = 0;
        while i < items.len()
            invariant
                i <= items@.len(),
                self.reg() == declare_all(old(self).reg(), trees(items@), i as nat),
            decreases items@.len() - i,
        {
            self.register_item(&items[i]);
            i = i + 1;
        }
    }

    /// Registers the `impl` blocks of an item, and holds each against its trait.
    pub fn register_impls(&mut self, item: &Item, errors: &mut Vec<TypeError>)
        ensures
            (State { reg: final(self).reg(), errs: trees(final(errors)@) }) == add_impls(
                State { reg: old(self).reg(), errs: trees(old(errors)@) },
                item.tree(),
            ),
        decreases item, 1nat,
    {
        proof {
            item.unfold();
            item.kind.unfold();
        }
        match &item.kind {
            ItemKind::Impl(d) => self.register_impl(d, errors),
            ItemKind::Mod(m) => {
                proof {
                    m.unfold();
                }
                self.register_all_impls(&m.items, errors);
            },
            _ => {},
        }
    }

    pub fn register_all_impls(&mut self, items: &Vec<Item>, errors: &mut Vec<TypeError>)
        ensures
            (State { reg: final(self).reg(), errs: trees(final(errors)@) }) == add_all_impls(
                State { reg: old(self).reg(), errs: trees(old(errors)@) },
                trees(items@),
                items@.len(),
            ),
        decreases items, 0nat,
    {
        let ghost start = State { reg: self.reg(), errs: trees(errors@) };
        let mut i: usize = 0;
        while i < items.len()
            invariant
                i <= items@.len(),
                (State { reg: self.reg(), errs: trees(errors@) }) == add_all_impls(
                    start,
                    trees(items@),
                    i as nat,
                ),
            decreases items@.len() - i,
        {
            self.register_impls(&items[i], errors);
            i = i + 1;
        }
    }

    fn register_impl(&mut self, d: &ImplDecl, errors: &mut Vec<TypeError>)
        ensures
            (State { reg: final(self).reg(), errs: trees(final(errors)@) }) == add_impl(
                State { reg: old(self).reg(), errs: trees(old(errors)@) },
                d.tree(),
            ),
    {
        proof {
            d.unfold();
            d.target.unfold();
        }
        let target = &d.target.name;
        let own = resolve_primitive(target);
        let methods = methods_of_impl(&d.items, &own);
        let trait_name = match &d.trait_ref {
            Some(t) => {
                proof {
                    t.unfold();
                }
                self.check_impl(t.name.as_str(), target.as_str(), &methods, errors);
                Some(t.name.clone())
            },
            None => None,
        };
        let ghost before = self.impls@;
        self.impls.push((target.clone(), ImplRecord { trait_name, methods }));
        assert(entries(self.impls@) =~= entries(before).push(
            (target@, (ImplRecord { trait_name, methods }).tree()),
        ));
    }

    /// The orphan rule, and the methods that the trait requires.
    fn check_impl(
        &self,
        trait_name: &str,
        target: &str,
        methods: &Names<FnSig>,
        errors: &mut Vec<TypeError>,
    )
        ensures
            trees(final(errors)@) == impl_problems(
                self.reg(),
                trait_name@,
                target@,
                methods.tree(),
                trees(old(errors)@),
            ),
    {
        if !self.traits.contains_key(trait_name) && !self.structs.contains_key(target)
            && !self.enums.contains_key(target) {
            let message = "orphan rule violation: `impl ".to_owned().concat(trait_name).concat(
                " for ",
            ).concat(target).concat(
                "` is not allowed -- neither the trait nor the type is defined in the current package (Document 7 §5)",
            );
            note(errors, message, title_of_impl(trait_name, target));
        }
        if let Some(shape) = self.traits.get(trait_name) {
            let required = &shape.methods;
            let ghost start = trees(errors@);
            let mut i: usize = 0;
            while i < required.len()
                invariant
                    i <= required.tree().len(),
                    trees(errors@) == missing_methods(
                        trait_name@,
                        target@,
                        required.tree(),
                        methods.tree(),
                        i as nat,
                        start,
                    ),
                decreases required.tree().len() - i,
            {
                let (name, sig) = required.at(i);
                if !sig.has_default_body && !methods.contains_key(name.as_str()) {
                    let message = "`impl ".to_owned().concat(trait_name).concat(" for ").concat(
                        target,
                    ).concat("` is missing required method `").concat(name.as_str()).concat(
                        "` (Document 7 §4.2/§4.3)",
                    );
                    note(errors, message, title_of_impl(trait_name, target));
                }
                i = i + 1;
            }
        }
    }

    /// Whether some `impl` of a trait is registered for a type.
    pub fn satisfies_bound(&self, t: &Ty, trait_name: &str) -> (r: bool)
        ensures
            r == satisfies(self.reg(), t.tree(), trait_name@),
    {
        let key = match ty_lookup_name(t) {
            Some(key) => key,
            None => return false,
        };
        let mut i: usize = 0;
        while i < self.impls.len()
            invariant
                i <= self.impls@.len(),
                lookup_name(t.tree()) == Some(key@),
                forall|k: int|
                    0 <= k < i ==> !((#[trigger] self.reg().impls[k]).0 == key@
                        && self.reg().impls[k].1.trait_name == Some(trait_name@)),
            decreases self.impls@.len() - i,
        {
            let record = &self.impls[i];
            assert(self.reg().impls[i as int] == (record.0@, record.1.tree()));
            if same_text(record.0.as_str(), key.as_str()) {
                if let Some(name) = &record.1.trait_name {
                    if same_text(name.as_str(), trait_name) {
                        return true;
                    }
                }
            }
            i = i + 1;
        }
        false
    }

    /// The method that a call on a type reaches. A method of an inherent `impl` block goes
    /// before one that a trait provides; on `dyn Trait` the trait's own signature counts.
    pub fn resolve_method(&self, t: &Ty, name: &str) -> (r: Option<&FnSig>)
        ensures
            match r {
                Some(sig) => method(self.reg(), t.tree(), name@) == Some(sig.tree()),
                None => method(self.reg(), t.tree(), name@) is None,
            },
    {
        proof {
            t.unfold();
        }
        match t {
            Ty::Named(n) => self.resolve_concrete(n.as_str(), name),
            Ty::Generic(n, _) => self.resolve_concrete(n.as_str(), name),
            Ty::DynTrait(n) => match self.traits.get(n.as_str()) {
                Some(shape) => shape.methods.get(name),
                None => None,
            },
            _ => None,
        }
    }

    fn resolve_concrete(&self, target: &str, name: &str) -> (r: Option<&FnSig>)
        ensures
            match r {
                Some(sig) => concrete_method(self.reg(), target@, name@) == Some(sig.tree()),
                None => concrete_method(self.reg(), target@, name@) is None,
            },
    {
        let found = self.inherent_method(target, name);
        if found.is_some() {
            return found;
        }
        let mut i: usize = 0;
        while i < self.impls.len()
            invariant
                i <= self.impls@.len(),
                any_method_from(self.reg().impls, target@, name@, i as nat) == concrete_method(
                    self.reg(),
                    target@,
                    name@,
                ),
            decreases self.impls@.len() - i,
        {
            let record = &self.impls[i];
            assert(self.reg().impls[i as int] == (record.0@, record.1.tree()));
            if same_text(record.0.as_str(), target) {
                let found = record.1.methods.get(name);
                if found.is_some() {
                    return found;
                }
            }
            i = i + 1;
        }
        None
    }

    /// The first method of a name in an inherent `impl` block of a type.
    fn inherent_method(&self, target: &str, name: &str) -> (r: Option<&FnSig>)
        ensures
            match r {
                Some(sig) => inherent_method_from(self.reg().impls, target@, name@, 0) == Some(
                    sig.tree(),
                ),
                None => inherent_method_from(self.reg().impls, target@, name@, 0) is None,
            },
    {
        let mut i: usize = 0;
        while i < self.impls.len()
            invariant
                i <= self.impls@.len(),
                inherent_method_from(self.reg().impls, target@, name@, i as nat)
                    == inherent_method_from(self.reg().impls, target@, name@, 0),
            decreases self.impls@.len() - i,
        {
            let record = &self.impls[i];
            assert(self.reg().impls[i as int] == (record.0@, record.1.tree()));
            if same_text(record.0.as_str(), target) && record.1.trait_name.is_none() {
                let found = record.1.methods.get(name);
                if found.is_some() {
                    return found;
                }
            }
            i = i + 1;
        }
        None
    }
}

/// `impl Trait for Type`
fn title_of_impl(trait_name: &str, target: &str) -> (r: String)
    ensures
        r@ == impl_title(trait_name@, target@),
{
    "impl ".to_owned().concat(trait_name).concat(" for ").concat(target)
}

/// What the type parameters stand for, given the first `n` arguments.
pub(super) fn subst_of_args(ps: &Vec<ParamKind>, args: &Vec<GenericArg>, n: usize) -> (r: Names<Ty>)
    requires
        n <= ps@.len(),
        n <= args@.len(),
    ensures
        r.tree() == type_args(trees(ps@), trees(args@), n as nat),
{
    let mut r: Names<Ty> = Names::new();
    let mut i: usize = 0;
    while i < n
        invariant
            i <= n,
            n <= ps@.len(),
            n <= args@.len(),
            r.tree() == type_args(trees(ps@), trees(args@), i as nat),
        decreases n - i,
    {
        proof {
            args@[i as int].unfold();
        }
        if let ParamKind::Type { name, .. } = &ps[i] {
            if let GenericArg::Type(t) = &args[i] {
                r.insert(name.clone(), t.copy());
            }
        }
        i = i + 1;
    }
    r
}

} // verus!
