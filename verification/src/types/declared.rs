//! What a program declares, at whatever depth of modules.
use crate::ast::UnaryOp;
use crate::text::{i64_of, nat_text, without_underscores};
use crate::tree::{
    EnumDecl, Expr, FnDecl, GenericParam, ImplDecl, ImplItem, Item, ItemKind, Literal, ModDecl,
    Param, Program, StructBody, StructDecl, TraitItem, Type, TypeRef,
};
use crate::types::checks::{check, check_all, checked, expr, function, impl_functions, part};
use crate::types::compounds::names_of_types;
use crate::types::growth::after;
use crate::types::laws::inherent_has;
use crate::types::model::{
    ty_text, FnSig, GenericArg, ImplRecord, ParamKind, Problem, Registry, TraitShape, Ty,
};
use crate::types::names::{first, get, lookup, put_then_lookup};
use crate::types::rules::{
    add_all_impls, add_impls, all_type_args, any_method_from, const_value, declare, declare_all,
    impl_methods, impl_problems, inherent_method_from, is_orphan, lookup_name, mark, method,
    param_kinds, param_types, primitive, read, resolve, resolve_all, satisfies, signature,
    substitute, trait_methods, type_args, type_params, Reading, State,
};
use vstd::prelude::*;

verus! {

/// The items, with those of a module in the place of the module, at any depth.
pub open spec fn unfolded(items: Seq<Item>, n: nat) -> Seq<Item>
    decreases items, n,
{
    if n == 0 || n > items.len() {
        seq![]
    } else {
        let before = unfolded(items, (n - 1) as nat);
        match items[n - 1].kind {
            ItemKind::Mod(m) => before + unfolded(m.items, m.items.len()),
            _ => before.push(items[n - 1]),
        }
    }
}

/// All the items of a program without its modules.
pub open spec fn all_items(p: Program) -> Seq<Item> {
    unfolded(p.items, p.items.len())
}

/// Whether an item stands among some, at any depth of modules.
pub open spec fn within(x: Item, items: Seq<Item>) -> bool
    decreases items,
{
    exists|i: int|
        0 <= i < items.len() && (#[trigger] items[i] == x || (items[i].kind matches ItemKind::Mod(m)
            && within(x, m.items)))
}

proof fn impl_blocks_of_a_longer_list(s: State, a: Seq<Item>, b: Seq<Item>, n: nat)
    requires
        n <= a.len(),
    ensures
        add_all_impls(s, a + b, n) == add_all_impls(s, a, n),
    decreases n,
{
    if n > 0 {
        impl_blocks_of_a_longer_list(s, a, b, (n - 1) as nat);
        assert((a + b)[n - 1] == a[n - 1]);
    }
}

/// The `impl` blocks of two lists of items, one after the other, comes of each in its turn.
pub proof fn impl_blocks_in_order(s: State, a: Seq<Item>, b: Seq<Item>, n: nat)
    requires
        n <= b.len(),
    ensures
        add_all_impls(s, a + b, a.len() + n) == add_all_impls(add_all_impls(s, a, a.len()), b, n),
    decreases n,
{
    if n == 0 {
        impl_blocks_of_a_longer_list(s, a, b, a.len());
    } else {
        impl_blocks_in_order(s, a, b, (n - 1) as nat);
        assert((a + b)[a.len() + n - 1] == b[n - 1]);
    }
}

/// Modules make no difference: the `impl` blocks of the items of a module is the same as if they
/// stood in its place.
pub proof fn modules_do_not_hide_impl_blocks(s: State, items: Seq<Item>, n: nat)
    requires
        n <= items.len(),
    ensures
        add_all_impls(s, items, n) == add_all_impls(
            s,
            unfolded(items, n),
            unfolded(items, n).len(),
        ),
    decreases items, n,
{
    let flat = unfolded(items, n);
    if n > 0 {
        let before = unfolded(items, (n - 1) as nat);
        modules_do_not_hide_impl_blocks(s, items, (n - 1) as nat);
        let so_far = add_all_impls(s, items, (n - 1) as nat);
        match items[n - 1].kind {
            ItemKind::Mod(m) => {
                let inner = unfolded(m.items, m.items.len());
                assert(decreases_to!(items => items[n - 1]));
                modules_do_not_hide_impl_blocks(so_far, m.items, m.items.len());
                impl_blocks_in_order(s, before, inner, inner.len());
                assert(
                    add_impls(so_far, items[n - 1]) == add_all_impls(so_far, m.items, m.items.len())
                );
            },
            _ => {
                let last = seq![items[n - 1]];
                impl_blocks_in_order(s, before, last, 1);
                assert(flat =~= before + last);
                assert(last[0] == items[n - 1]);
                assert(add_all_impls(so_far, last, 0) == so_far);
                assert(add_all_impls(so_far, last, 1) == add_impls(so_far, items[n - 1]));
            },
        }
    }
}

/// The `impl` blocks of a module comes of its items, one after the other.
pub proof fn impl_blocks_of_a_module(s: State, item: Item, m: ModDecl)
    requires
        item.kind == ItemKind::Mod(m),
    ensures
        add_impls(s, item) == add_all_impls(s, m.items, m.items.len()),
{
}

proof fn declarations_of_a_longer_list(reg: Registry, a: Seq<Item>, b: Seq<Item>, n: nat)
    requires
        n <= a.len(),
    ensures
        declare_all(reg, a + b, n) == declare_all(reg, a, n),
    decreases n,
{
    if n > 0 {
        declarations_of_a_longer_list(reg, a, b, (n - 1) as nat);
        assert((a + b)[n - 1] == a[n - 1]);
    }
}

/// What is declared by two lists of items, one after the other, comes of each in its turn.
pub proof fn declarations_in_order(reg: Registry, a: Seq<Item>, b: Seq<Item>, n: nat)
    requires
        n <= b.len(),
    ensures
        declare_all(reg, a + b, a.len() + n) == declare_all(declare_all(reg, a, a.len()), b, n),
    decreases n,
{
    if n == 0 {
        declarations_of_a_longer_list(reg, a, b, a.len());
    } else {
        declarations_in_order(reg, a, b, (n - 1) as nat);
        assert((a + b)[a.len() + n - 1] == b[n - 1]);
    }
}

/// Modules make no difference: what is declared by the items of a module is the same as if they
/// stood in its place.
pub proof fn modules_do_not_hide_declarations(reg: Registry, items: Seq<Item>, n: nat)
    requires
        n <= items.len(),
    ensures
        declare_all(reg, items, n) == declare_all(
            reg,
            unfolded(items, n),
            unfolded(items, n).len(),
        ),
    decreases items, n,
{
    let flat = unfolded(items, n);
    if n > 0 {
        let before = unfolded(items, (n - 1) as nat);
        modules_do_not_hide_declarations(reg, items, (n - 1) as nat);
        let so_far = declare_all(reg, items, (n - 1) as nat);
        match items[n - 1].kind {
            ItemKind::Mod(m) => {
                let inner = unfolded(m.items, m.items.len());
                assert(decreases_to!(items => items[n - 1]));
                modules_do_not_hide_declarations(so_far, m.items, m.items.len());
                declarations_in_order(reg, before, inner, inner.len());
                assert(
                    declare(so_far, items[n - 1]) == declare_all(so_far, m.items, m.items.len())
                );
            },
            _ => {
                let last = seq![items[n - 1]];
                declarations_in_order(reg, before, last, 1);
                assert(flat =~= before + last);
                assert(last[0] == items[n - 1]);
                assert(declare_all(so_far, last, 0) == so_far);
                assert(declare_all(so_far, last, 1) == declare(so_far, items[n - 1]));
            },
        }
    }
}

/// What is declared by a module comes of its items, one after the other.
pub proof fn declarations_of_a_module(reg: Registry, item: Item, m: ModDecl)
    requires
        item.kind == ItemKind::Mod(m),
    ensures
        declare(reg, item) == declare_all(reg, m.items, m.items.len()),
{
}

proof fn bodies_of_a_longer_list(
    reg: Registry,
    errs: Seq<Problem>,
    a: Seq<Item>,
    b: Seq<Item>,
    n: nat,
)
    requires
        n <= a.len(),
    ensures
        check_all(reg, a + b, n, errs) == check_all(reg, a, n, errs),
    decreases n,
{
    if n > 0 {
        bodies_of_a_longer_list(reg, errs, a, b, (n - 1) as nat);
        assert((a + b)[n - 1] == a[n - 1]);
    }
}

/// What is found in two lists of items, one after the other, comes of each in its turn.
pub proof fn bodies_in_order(reg: Registry, errs: Seq<Problem>, a: Seq<Item>, b: Seq<Item>, n: nat)
    requires
        n <= b.len(),
    ensures
        check_all(reg, a + b, a.len() + n, errs) == check_all(
            reg,
            b,
            n,
            check_all(reg, a, a.len(), errs),
        ),
    decreases n,
{
    if n == 0 {
        bodies_of_a_longer_list(reg, errs, a, b, a.len());
    } else {
        bodies_in_order(reg, errs, a, b, (n - 1) as nat);
        assert((a + b)[a.len() + n - 1] == b[n - 1]);
    }
}

/// Modules make no difference: what is found in the items of a module is the same as if they
/// stood in its place.
pub proof fn modules_do_not_hide_bodies(reg: Registry, errs: Seq<Problem>, items: Seq<Item>, n: nat)
    requires
        n <= items.len(),
    ensures
        check_all(reg, items, n, errs) == check_all(
            reg,
            unfolded(items, n),
            unfolded(items, n).len(),
            errs,
        ),
    decreases items, n,
{
    let flat = unfolded(items, n);
    if n > 0 {
        let before = unfolded(items, (n - 1) as nat);
        modules_do_not_hide_bodies(reg, errs, items, (n - 1) as nat);
        let so_far = check_all(reg, items, (n - 1) as nat, errs);
        match items[n - 1].kind {
            ItemKind::Mod(m) => {
                let inner = unfolded(m.items, m.items.len());
                assert(decreases_to!(items => items[n - 1]));
                modules_do_not_hide_bodies(reg, so_far, m.items, m.items.len());
                bodies_in_order(reg, errs, before, inner, inner.len());
                assert(
                    check(reg, items[n - 1], so_far) == check_all(
                        reg,
                        m.items,
                        m.items.len(),
                        so_far,
                    )
                );
            },
            _ => {
                let last = seq![items[n - 1]];
                bodies_in_order(reg, errs, before, last, 1);
                assert(flat =~= before + last);
                assert(last[0] == items[n - 1]);
                assert(check_all(reg, last, 0, so_far) == so_far);
                assert(check_all(reg, last, 1, so_far) == check(reg, items[n - 1], so_far));
            },
        }
    }
}

/// What is found in a module comes of its items, one after the other.
pub proof fn bodies_of_a_module(reg: Registry, errs: Seq<Problem>, item: Item, m: ModDecl)
    requires
        item.kind == ItemKind::Mod(m),
    ensures
        check(reg, item, errs) == check_all(reg, m.items, m.items.len(), errs),
{
}

/// No module is left among the items that are unfolded, and they are those that stand at any
/// depth.
pub proof fn what_unfolds(items: Seq<Item>, n: nat, x: Item)
    requires
        n <= items.len(),
        !(x.kind is Mod),
    ensures
        forall|i: int|
            0 <= i < unfolded(items, n).len() ==> !((#[trigger] unfolded(items, n)[i]).kind is Mod),
        unfolded(items, n).contains(x) <==> within(x, items.take(n as int)),
    decreases items, n,
{
    let flat = unfolded(items, n);
    let part = items.take(n as int);
    if n == 0 {
    } else {
        let before = unfolded(items, (n - 1) as nat);
        let shorter = items.take(n - 1);
        what_unfolds(items, (n - 1) as nat, x);
        assert(forall|i: int| 0 <= i < n - 1 ==> shorter[i] == #[trigger] part[i]);
        assert(part[n - 1] == items[n - 1]);
        assert(within(x, part) <==> within(x, shorter) || items[n - 1] == x || (
        items[n - 1].kind matches ItemKind::Mod(m) && within(x, m.items))) by {
            if within(x, shorter) {
                let i = choose|i: int|
                    0 <= i < shorter.len() && (#[trigger] shorter[i] == x || (
                    shorter[i].kind matches ItemKind::Mod(m) && within(x, m.items)));
                assert(part[i] == shorter[i]);
            }
            if within(x, part) {
                let i = choose|i: int|
                    0 <= i < part.len() && (#[trigger] part[i] == x || (
                    part[i].kind matches ItemKind::Mod(m) && within(x, m.items)));
                if i < n - 1 {
                    assert(shorter[i] == part[i]);
                }
            }
        }
        match items[n - 1].kind {
            ItemKind::Mod(m) => {
                let inner = unfolded(m.items, m.items.len());
                assert(decreases_to!(items => items[n - 1]));
                what_unfolds(m.items, m.items.len(), x);
                assert(m.items.take(m.items.len() as int) =~= m.items);
                assert(flat.contains(x) <==> before.contains(x) || inner.contains(x)) by {
                    if before.contains(x) {
                        let i = choose|i: int| 0 <= i < before.len() && before[i] == x;
                        assert(flat[i] == x);
                    }
                    if inner.contains(x) {
                        let i = choose|i: int| 0 <= i < inner.len() && inner[i] == x;
                        assert(flat[before.len() + i] == x);
                    }
                }
            },
            _ => {
                assert(flat.contains(x) <==> before.contains(x) || items[n - 1] == x) by {
                    if before.contains(x) {
                        let i = choose|i: int| 0 <= i < before.len() && before[i] == x;
                        assert(flat[i] == x);
                    }
                    assert(flat[before.len() as int] == items[n - 1]);
                }
            },
        }
    }
}

/// What is kept of an `impl` block: its target, its trait, and its methods.
pub open spec fn record(d: ImplDecl) -> (Seq<char>, ImplRecord) {
    (
        d.target.name,
        ImplRecord {
            trait_name: match d.trait_ref {
                Some(t) => Some(t.name),
                None => None,
            },
            methods: impl_methods(d.items, primitive(d.target.name), d.items.len()),
        },
    )
}

/// An `impl` block is kept behind those before it, and nothing else of the registry changes.
pub proof fn impl_blocks_are_kept(s: State, item: Item)
    ensures
        match item.kind {
            ItemKind::Impl(d) => add_impls(s, item).reg == (Registry {
                impls: s.reg.impls.push(record(d)),
                ..s.reg
            }),
            ItemKind::Mod(_) => true,
            _ => add_impls(s, item) == s,
        },
        item.kind matches ItemKind::Impl(d) && d.trait_ref is None ==> add_impls(s, item).errs
            == s.errs,
{
}

proof fn impl_blocks_stay(s: State, items: Seq<Item>, n: nat)
    requires
        n <= items.len(),
        forall|i: int| 0 <= i < items.len() ==> !((#[trigger] items[i]).kind is Mod),
    ensures
        s.reg.impls.len() <= add_all_impls(s, items, n).reg.impls.len(),
        s.reg.impls == add_all_impls(s, items, n).reg.impls.take(s.reg.impls.len() as int),
        forall|i: int|
            0 <= i < n ==> ((#[trigger] items[i]).kind matches ItemKind::Impl(d) ==> add_all_impls(
                s,
                items,
                n,
            ).reg.impls.contains(record(d))),
        forall|k: int|
            s.reg.impls.len() <= k < add_all_impls(s, items, n).reg.impls.len() ==> came_from(
                #[trigger] add_all_impls(s, items, n).reg.impls[k],
                items,
            ),
    decreases n,
{
    let after = add_all_impls(s, items, n).reg.impls;
    if n == 0 {
        assert(after.take(after.len() as int) =~= after);
    } else {
        impl_blocks_stay(s, items, (n - 1) as nat);
        let before = add_all_impls(s, items, (n - 1) as nat).reg.impls;
        impl_blocks_are_kept(add_all_impls(s, items, (n - 1) as nat), items[n - 1]);
        assert(before =~= after.take(before.len() as int));
        assert(s.reg.impls =~= after.take(s.reg.impls.len() as int)) by {
            assert forall|i: int| 0 <= i < s.reg.impls.len() implies s.reg.impls[i]
                == after[i] by {
                assert(s.reg.impls[i] == before.take(s.reg.impls.len() as int)[i]);
            }
        }
        assert forall|i: int| 0 <= i < n implies ((#[trigger] items[i]).kind matches ItemKind::Impl(
            d,
        ) ==> after.contains(record(d))) by {
            if let ItemKind::Impl(d) = items[i].kind {
                if i == n - 1 {
                    assert(after[before.len() as int] == record(d));
                } else {
                    let k = choose|k: int| 0 <= k < before.len() && before[k] == record(d);
                    assert(after[k] == record(d));
                }
            }
        }
        assert forall|k: int| s.reg.impls.len() <= k < after.len() implies came_from(
            #[trigger] after[k],
            items,
        ) by {
            if k < before.len() {
                assert(after[k] == before[k]);
            } else {
                assert(items[n - 1].kind is Impl);
                assert(after[k] == record(items[n - 1].kind->Impl_0));
            }
        }
    }
}

/// Whether a record is that of an `impl` block among some items.
pub open spec fn came_from(r: (Seq<char>, ImplRecord), items: Seq<Item>) -> bool {
    exists|i: int|
        0 <= i < items.len() && ((#[trigger] items[i]).kind matches ItemKind::Impl(d) && r
            == record(d))
}

/// After a program is checked, every `impl` block of it, at any depth of modules, is in the
/// registry; the ones from before are still there, and there are no others.
pub proof fn every_impl_block_is_registered(s: State, p: Program, x: Item)
    ensures
        s.reg.impls == checked(s, p).reg.impls.take(s.reg.impls.len() as int),
        within(x, p.items) ==> (x.kind matches ItemKind::Impl(d) ==> checked(
            s,
            p,
        ).reg.impls.contains(record(d))),
        forall|k: int|
            s.reg.impls.len() <= k < checked(s, p).reg.impls.len() ==> came_from(
                #[trigger] checked(s, p).reg.impls[k],
                all_items(p),
            ),
{
    let n = p.items.len();
    let flat = all_items(p);
    let declared = State { reg: declare_all(s.reg, p.items, n), errs: s.errs };
    declaring_keeps_impls(s.reg, p.items, n);
    modules_do_not_hide_impl_blocks(declared, p.items, n);
    if x.kind is Impl {
        what_unfolds(p.items, n, x);
        assert(p.items.take(n as int) =~= p.items);
    }
    let plain = Item { kind: ItemKind::Import(seq![]), ..x };
    what_unfolds(p.items, n, plain);
    impl_blocks_stay(declared, flat, flat.len());
    if within(x, p.items) && x.kind is Impl {
        let i = choose|i: int| 0 <= i < flat.len() && flat[i] == x;
        assert(flat[i].kind is Impl);
    }
}

proof fn declaring_keeps_impls(reg: Registry, items: Seq<Item>, n: nat)
    ensures
        declare_all(reg, items, n).impls == reg.impls,
    decreases items, n,
{
    if n == 0 || n > items.len() {
    } else {
        declaring_keeps_impls(reg, items, (n - 1) as nat);
        let before = declare_all(reg, items, (n - 1) as nat);
        assert(declare_all(reg, items, n) == declare(before, items[n - 1]));
        if let ItemKind::Mod(m) = items[n - 1].kind {
            assert(decreases_to!(items => items[n - 1]));
            declaring_keeps_impls(before, m.items, m.items.len());
            assert(declare(before, items[n - 1]) == declare_all(before, m.items, m.items.len()));
        }
    }
}

/// A program is checked as if its modules were not there: the registry and the problems are
/// those of all its items in their order.
pub proof fn modules_make_no_difference(s: State, p: Program)
    ensures
        checked(s, p) == checked(s, Program { items: all_items(p) }),
{
    let n = p.items.len();
    modules_do_not_hide_declarations(s.reg, p.items, n);
    let declared = State { reg: declare_all(s.reg, p.items, n), errs: s.errs };
    modules_do_not_hide_impl_blocks(declared, p.items, n);
    let complete = add_all_impls(declared, p.items, n);
    modules_do_not_hide_bodies(complete.reg, complete.errs, p.items, n);
}

/// Of items that are no modules, a function and the functions of an `impl` block are looked
/// at; nothing else is.
pub proof fn what_is_looked_at(reg: Registry, item: Item, errs: Seq<Problem>)
    ensures
        match item.kind {
            ItemKind::Fn(f) => check(reg, item, errs) == function(reg, f, None, errs),
            ItemKind::Impl(d) => check(reg, item, errs) == impl_functions(
                reg,
                d.items,
                primitive(d.target.name),
                d.items.len(),
                errs,
            ),
            ItemKind::Mod(_) => true,
            _ => check(reg, item, errs) == errs,
        },
{
}

/// A struct is declared under its name with its fields in their order, a tuple-like one with
/// their numbers as names. Nothing else changes.
pub proof fn structs_are_declared(reg: Registry, item: Item, d: StructDecl)
    requires
        item.kind == ItemKind::Struct(d),
    ensures
        ({
            let after = declare(reg, item);
            let shape = get(after.structs, d.name)->0;
            let how = Reading::Marked(type_params(param_kinds(d.generics), d.generics.len()));
            &&& get(after.structs, d.name) is Some
            &&& after == (Registry { structs: reg.structs.insert(d.name, shape), ..reg })
            &&& shape.generics == param_kinds(d.generics)
            &&& shape.is_tuple <==> d.body is Tuple
            &&& match d.body {
                StructBody::Named(fs) => shape.fields.len() == fs.len() && forall|i: int|
                    0 <= i < fs.len() ==> #[trigger] shape.fields[i] == (
                        fs[i].name,
                        read(fs[i].ty, how),
                    ),
                StructBody::Tuple(ts) => shape.fields.len() == ts.len() && forall|i: int|
                    0 <= i < ts.len() ==> #[trigger] shape.fields[i] == (
                        nat_text(i as nat),
                        read(ts[i], how),
                    ),
                StructBody::Unit => shape.fields.len() == 0,
            }
        }),
{
}

/// An enum is declared under its name with its variants in their order, each with the types
/// that it carries. Nothing else changes.
pub proof fn enums_are_declared(reg: Registry, item: Item, d: EnumDecl)
    requires
        item.kind == ItemKind::Enum(d),
    ensures
        ({
            let after = declare(reg, item);
            let shape = get(after.enums, d.name)->0;
            let how = Reading::Marked(type_params(param_kinds(d.generics), d.generics.len()));
            &&& get(after.enums, d.name) is Some
            &&& after == (Registry { enums: reg.enums.insert(d.name, shape), ..reg })
            &&& shape.generics == param_kinds(d.generics)
            &&& shape.variants.len() == d.variants.len()
            &&& forall|i: int|
                0 <= i < d.variants.len() ==> (#[trigger] shape.variants[i]).0 == d.variants[i].name
                    && shape.variants[i].1.len() == d.variants[i].data.len()
            &&& forall|i: int, j: int|
                0 <= i < d.variants.len() && 0 <= j < d.variants[i].data.len()
                    ==> #[trigger] shape.variants[i].1[j] == read(d.variants[i].data[j], how)
        }),
{
}

/// A function is declared under its name with the types of its parameters, what it gives back,
/// and its bounds. Nothing else changes.
pub proof fn functions_are_declared(reg: Registry, item: Item, f: FnDecl)
    requires
        item.kind == ItemKind::Fn(f),
    ensures
        ({
            let after = declare(reg, item);
            let shape = get(after.functions, f.name)->0;
            let how = Reading::Marked(type_params(param_kinds(f.generics), f.generics.len()));
            &&& get(after.functions, f.name) is Some
            &&& after == (Registry { functions: reg.functions.insert(f.name, shape), ..reg })
            &&& shape.generics == param_kinds(f.generics)
            &&& shape.params == param_types(f.params, how, f.params.len())
            &&& shape.ret == (match f.return_type {
                Some(t) => read(t, how),
                None => Ty::Unit,
            })
            &&& shape.bounds.len() == f.where_clause.len()
            &&& forall|i: int|
                0 <= i < f.where_clause.len() ==> (#[trigger] shape.bounds[i]).0
                    == f.where_clause[i].name && shape.bounds[i].1.len()
                    == f.where_clause[i].bounds.len()
            &&& forall|i: int, j: int|
                0 <= i < f.where_clause.len() && 0 <= j < f.where_clause[i].bounds.len()
                    ==> #[trigger] shape.bounds[i].1[j] == f.where_clause[i].bounds[j].name
        }),
{
}

/// A trait is declared under its name with its methods. Nothing else changes. No other item
/// but a module declares anything.
pub proof fn traits_and_the_rest(reg: Registry, item: Item)
    ensures
        match item.kind {
            ItemKind::Trait(t) => declare(reg, item) == (Registry {
                traits: reg.traits.insert(
                    t.name,
                    TraitShape { methods: trait_methods(t.items, t.items.len()) },
                ),
                ..reg
            }),
            ItemKind::Struct(_) => true,
            ItemKind::Enum(_) => true,
            ItemKind::Fn(_) => true,
            ItemKind::Mod(_) => true,
            _ => declare(reg, item) == reg,
        },
{
}

proof fn trait_methods_of_a_longer_list(a: Seq<TraitItem>, b: Seq<TraitItem>, n: nat)
    requires
        n <= a.len(),
    ensures
        trait_methods(a + b, n) == trait_methods(a, n),
    decreases n,
{
    if n > 0 {
        trait_methods_of_a_longer_list(a, b, (n - 1) as nat);
        assert((a + b)[n - 1] == a[n - 1]);
    }
}

/// Each function of a trait is a method of it under its name; one with a body need not be
/// provided. The types stand as they are written.
pub proof fn methods_of_traits(before: Seq<TraitItem>, x: TraitItem, name: Seq<char>)
    ensures
        trait_methods(seq![], 0) == Seq::<(Seq<char>, FnSig)>::empty(),
        ({
            let all = before.push(x);
            let first = trait_methods(before, before.len());
            let after = trait_methods(all, all.len());
            match x {
                TraitItem::Fn(f) => lookup(after, name) == (if name == f.name {
                    Some(
                        FnSig {
                            params: param_types(f.params, Reading::Plain, f.params.len()),
                            ret: match f.return_type {
                                Some(t) => read(t, Reading::Plain),
                                None => Ty::Unit,
                            },
                            has_default_body: f.body is Some,
                        },
                    )
                } else {
                    lookup(first, name)
                }),
                TraitItem::AssocType(_) => after == first,
            }
        }),
{
    let all = before.push(x);
    assert(all =~= before + seq![x]);
    trait_methods_of_a_longer_list(before, seq![x], before.len());
    assert(all[all.len() - 1] == x);
    assert(all.len() - 1 == before.len());
    if let TraitItem::Fn(f) = x {
        put_then_lookup(
            trait_methods(before, before.len()),
            f.name,
            signature(f, Reading::Plain, f.body is Some),
            name,
        );
    }
}

proof fn impl_methods_of_a_longer_list(a: Seq<ImplItem>, b: Seq<ImplItem>, own: Ty, n: nat)
    requires
        n <= a.len(),
    ensures
        impl_methods(a + b, own, n) == impl_methods(a, own, n),
    decreases n,
{
    if n > 0 {
        impl_methods_of_a_longer_list(a, b, own, (n - 1) as nat);
        assert((a + b)[n - 1] == a[n - 1]);
    }
}

/// Each function of an `impl` block is a method of its type under its name, with `Self` for
/// that type.
pub proof fn methods_of_impls(before: Seq<ImplItem>, x: ImplItem, own: Ty, name: Seq<char>)
    ensures
        impl_methods(seq![], own, 0) == Seq::<(Seq<char>, FnSig)>::empty(),
        ({
            let all = before.push(x);
            let first = impl_methods(before, own, before.len());
            let after = impl_methods(all, own, all.len());
            match x {
                ImplItem::Fn(f) => lookup(after, name) == (if name == f.name {
                    Some(
                        FnSig {
                            params: param_types(f.params, Reading::Within(own), f.params.len()),
                            ret: match f.return_type {
                                Some(t) => read(t, Reading::Within(own)),
                                None => Ty::Unit,
                            },
                            has_default_body: true,
                        },
                    )
                } else {
                    lookup(first, name)
                }),
                ImplItem::AssocType(..) => after == first,
            }
        }),
{
    let all = before.push(x);
    assert(all =~= before + seq![x]);
    impl_methods_of_a_longer_list(before, seq![x], own, before.len());
    assert(all[all.len() - 1] == x);
    assert(all.len() - 1 == before.len());
    if let ImplItem::Fn(f) = x {
        put_then_lookup(
            impl_methods(before, own, before.len()),
            f.name,
            signature(f, Reading::Within(own), true),
            name,
        );
    }
}

proof fn param_types_of_a_longer_list(a: Seq<Param>, b: Seq<Param>, how: Reading, n: nat)
    requires
        n <= a.len(),
    ensures
        param_types(a + b, how, n) == param_types(a, how, n),
    decreases n,
{
    if n > 0 {
        param_types_of_a_longer_list(a, b, how, (n - 1) as nat);
        assert((a + b)[n - 1] == a[n - 1]);
    }
}

/// The types of the parameters stand in their order; the receiver is left out.
pub proof fn types_of_parameters(before: Seq<Param>, p: Param, how: Reading)
    ensures
        param_types(seq![], how, 0) == Seq::<Ty>::empty(),
        ({
            let all = before.push(p);
            let first = param_types(before, how, before.len());
            &&& p.name == "self"@ ==> param_types(all, how, all.len()) == first
            &&& p.name != "self"@ ==> param_types(all, how, all.len()) == first.push(
                read(p.ty, how),
            )
        }),
{
    let all = before.push(p);
    assert(all =~= before + seq![p]);
    param_types_of_a_longer_list(before, seq![p], how, before.len());
    assert(all[all.len() - 1] == p);
    assert(all.len() - 1 == before.len());
}

proof fn type_params_of_a_longer_list(a: Seq<ParamKind>, b: Seq<ParamKind>, n: nat)
    requires
        n <= a.len(),
    ensures
        type_params(a + b, n) == type_params(a, n),
    decreases n,
{
    if n > 0 {
        type_params_of_a_longer_list(a, b, (n - 1) as nat);
        assert((a + b)[n - 1] == a[n - 1]);
    }
}

/// The type parameters stand in their order; const parameters are left out.
pub proof fn names_of_type_parameters(before: Seq<ParamKind>, p: ParamKind)
    ensures
        type_params(seq![], 0) == Seq::<Seq<char>>::empty(),
        ({
            let all = before.push(p);
            let first = type_params(before, before.len());
            type_params(all, all.len()) == (match p {
                ParamKind::Type { name, .. } => first.push(name),
                ParamKind::Const { .. } => first,
            })
        }),
{
    let all = before.push(p);
    assert(all =~= before + seq![p]);
    type_params_of_a_longer_list(before, seq![p], before.len());
    assert(all[all.len() - 1] == p);
    assert(all.len() - 1 == before.len());
}

/// Each generic parameter is kept with its name: a type with the names of its bounds, a
/// constant with its type.
pub proof fn kinds_of_parameters(ps: Seq<GenericParam>, i: int)
    requires
        0 <= i < ps.len(),
    ensures
        param_kinds(ps).len() == ps.len(),
        match (ps[i], param_kinds(ps)[i]) {
            (GenericParam::Type { name, bounds }, ParamKind::Type { name: n, bounds: bs }) => n
                == name && bs.len() == bounds.len() && forall|j: int|
                0 <= j < bounds.len() ==> #[trigger] bs[j] == bounds[j].name,
            (GenericParam::Const { name, ty }, ParamKind::Const { name: n, ty: t }) => n == name
                && t == resolve(ty),
            _ => false,
        },
{
}

/// The written types and what they stand for, one by one.
pub proof fn written_types(t: Type)
    ensures
        t matches Type::Primitive(s) ==> ty_text(resolve(t)) == s,
        t matches Type::Named(n, _) ==> resolve(t) == Ty::Named(n),
        t matches Type::Array(e, _) ==> resolve(t) == Ty::Array(Box::new(resolve(*e))),
        t matches Type::Tuple(ts) ==> (resolve(t) matches Ty::Tuple(rs) && rs.len() == ts.len()
            && forall|i: int| 0 <= i < ts.len() ==> #[trigger] rs[i] == resolve(ts[i])),
        t matches Type::Ref { mutable, inner, .. } ==> resolve(t) == Ty::Ref(
            mutable,
            Box::new(resolve(*inner)),
        ),
        t matches Type::Dyn(n, _) ==> resolve(t) == Ty::DynTrait(n),
        t matches Type::Fn(ps, r) ==> (resolve(t) matches Ty::Fn(qs, q) && *q == resolve(*r)
            && qs.len() == ps.len() && forall|i: int|
            0 <= i < ps.len() ==> #[trigger] qs[i] == resolve(ps[i])),
        t matches Type::Option(e) ==> resolve(t) == Ty::OptionTy(Box::new(resolve(*e))),
        t matches Type::Result(o, e) ==> resolve(t) == Ty::ResultTy(
            Box::new(resolve(*o)),
            Box::new(resolve(*e)),
        ),
        t is Unit || t is ConstArg ==> resolve(t) is Unit,
        t is Never ==> resolve(t) is Never,
{
    if let Type::Primitive(s) = t {
        assert(resolve(t) == primitive(s));
        names_of_types(s);
    }
    if let Type::Tuple(ts) = t {
        let rs = resolve_all(ts);
        assert(resolve(t) == Ty::Tuple(rs));
        assert(forall|i: int| 0 <= i < ts.len() ==> #[trigger] rs[i] == resolve(ts[i]));
    }
    if let Type::Fn(ps, r) = t {
        let qs = resolve_all(ps);
        assert(resolve(t) == Ty::Fn(qs, Box::new(resolve(*r))));
        assert(forall|i: int| 0 <= i < ps.len() ==> #[trigger] qs[i] == resolve(ps[i]));
    }
}

/// A type is read as it is written, with some names as type parameters, or with `Self` for a
/// type.
pub proof fn readings(t: Type, names: Seq<Seq<char>>, own: Ty)
    ensures
        read(t, Reading::Plain) == resolve(t),
        read(t, Reading::Marked(names)) == mark(resolve(t), names),
        read(t, Reading::Within(own)) == substitute(
            mark(resolve(t), seq!["Self"@]),
            seq![("Self"@, own)],
        ),
{
}

/// An `impl` of a trait may stand where the trait, the struct or the enum is declared, and
/// nowhere else.
pub proof fn orphans(reg: Registry, trait_name: Seq<char>, target: Seq<char>)
    ensures
        get(reg.traits, trait_name) is Some ==> !is_orphan(reg, trait_name, target),
        get(reg.structs, target) is Some ==> !is_orphan(reg, trait_name, target),
        get(reg.enums, target) is Some ==> !is_orphan(reg, trait_name, target),
        get(reg.traits, trait_name) is None && get(reg.structs, target) is None && get(
            reg.enums,
            target,
        ) is None ==> is_orphan(reg, trait_name, target),
{
}

/// The problems of an `impl` block: none where it is inherent, else those of an `impl` of its
/// trait for its target with its methods.
pub proof fn problems_of_impl_blocks(s: State, item: Item, d: ImplDecl)
    requires
        item.kind == ItemKind::Impl(d),
    ensures
        match d.trait_ref {
            None => add_impls(s, item).errs == s.errs,
            Some(t) => {
                let methods = impl_methods(d.items, primitive(d.target.name), d.items.len());
                add_impls(s, item).errs == impl_problems(
                    s.reg,
                    t.name,
                    d.target.name,
                    methods,
                    s.errs,
                )
            },
        },
{
}

/// A type has a trait where an `impl` of it stands in the registry under the name of the type;
/// to add one is enough.
pub proof fn traits_that_types_have(s: State, item: Item, d: ImplDecl, t: TypeRef)
    requires
        item.kind == ItemKind::Impl(d),
        d.trait_ref == Some(t),
    ensures
        satisfies(add_impls(s, item).reg, primitive(d.target.name), t.name),
        satisfies(add_impls(s, item).reg, Ty::Named(d.target.name), t.name),
{
    let impls = add_impls(s, item).reg.impls;
    assert(impls[s.reg.impls.len() as int] == record(d));
    assert(lookup_name(primitive(d.target.name)) == Some(d.target.name));
}

/// A type that no `impl` of a trait stands for does not have it, and what has no name has none.
pub proof fn traits_that_types_lack(reg: Registry, t: Ty, name: Seq<char>)
    ensures
        lookup_name(t) is None ==> !satisfies(reg, t, name),
        lookup_name(t) matches Some(key) ==> (satisfies(reg, t, name) <==> exists|i: int|
            0 <= i < reg.impls.len() && (#[trigger] reg.impls[i]).0 == key
                && reg.impls[i].1.trait_name == Some(name)),
        t is Unit || t is Never || t is Null || t is Array || t is Tuple || t is Ref
            || t is TypeParam || t is DynTrait || t is OptionTy || t is ResultTy || t is Fn
                ==> lookup_name(t) is None,
        t matches Ty::Generic(n, _) ==> lookup_name(t) == Some(n),
{
}

/// Whether some `impl` block of a type has a method, inherent or not.
pub open spec fn some_has(reg: Registry, target: Seq<char>, name: Seq<char>, i: int) -> bool {
    &&& 0 <= i < reg.impls.len()
    &&& reg.impls[i].0 == target
    &&& lookup(reg.impls[i].1.methods, name) is Some
}

proof fn first_of_any(reg: Registry, target: Seq<char>, name: Seq<char>, from: nat)
    ensures
        match any_method_from(reg.impls, target, name, from) {
            Some(sig) => exists|j: int|
                #[trigger] some_has(reg, target, name, j) && from <= j && lookup(
                    reg.impls[j].1.methods,
                    name,
                ) == Some(sig) && forall|k: int|
                    from <= k < j ==> !some_has(reg, target, name, k),
            None => forall|k: int| from <= k ==> !some_has(reg, target, name, k),
        },
    decreases reg.impls.len() - from,
{
    if from < reg.impls.len() {
        if some_has(reg, target, name, from as int) {
        } else {
            first_of_any(reg, target, name, from + 1);
        }
    }
}

proof fn no_inherent(reg: Registry, target: Seq<char>, name: Seq<char>, from: nat)
    requires
        forall|k: int| from <= k ==> !inherent_has(reg, target, name, k),
    ensures
        inherent_method_from(reg.impls, target, name, from) is None,
    decreases reg.impls.len() - from,
{
    if from < reg.impls.len() {
        assert(!inherent_has(reg, target, name, from as int));
        no_inherent(reg, target, name, from + 1);
    }
}

/// Where no inherent `impl` block of a type has a method, it is that of the first `impl` block
/// of the type that has one; where none has, there is no method.
pub proof fn methods_through_traits(reg: Registry, target: Seq<char>, name: Seq<char>)
    requires
        forall|k: int| !inherent_has(reg, target, name, k),
    ensures
        match method(reg, Ty::Named(target), name) {
            Some(sig) => exists|j: int|
                #[trigger] some_has(reg, target, name, j) && lookup(
                    reg.impls[j].1.methods,
                    name,
                ) == Some(sig) && forall|k: int| 0 <= k < j ==> !some_has(reg, target, name, k),
            None => forall|k: int| !some_has(reg, target, name, k),
        },
{
    no_inherent(reg, target, name, 0);
    first_of_any(reg, target, name, 0);
}

/// The value of a generic argument is that of the literal, and each minus sign turns it round.
pub proof fn values_of_arguments(e: Expr, text: Seq<char>, n: i64)
    ensures
        const_value(Expr::Literal(Literal::Int(text))) == i64_of(without_underscores(text)),
        const_value(e) == Some(n) && n > i64::MIN ==> const_value(
            Expr::Unary { op: UnaryOp::Neg, expr: Box::new(e) },
        ) == Some((-n) as i64),
        const_value(e) == Some(i64::MIN) ==> const_value(
            Expr::Unary { op: UnaryOp::Neg, expr: Box::new(e) },
        ) == Some(i64::MIN),
        const_value(e) is None ==> const_value(
            Expr::Unary { op: UnaryOp::Neg, expr: Box::new(e) },
        ) is None,
        !(e is Literal) && !(e is Unary) ==> const_value(e) is None,
        e matches Expr::Unary { op, .. } && !(op is Neg) ==> const_value(e) is None,
        e matches Expr::Literal(l) && !(l is Int) ==> const_value(e) is None,
{
}

proof fn type_args_of_longer_lists(
    ps: Seq<ParamKind>,
    more: Seq<ParamKind>,
    args: Seq<GenericArg>,
    others: Seq<GenericArg>,
    n: nat,
)
    requires
        n <= ps.len(),
        n <= args.len(),
    ensures
        type_args(ps + more, args + others, n) == type_args(ps, args, n),
    decreases n,
{
    if n > 0 {
        type_args_of_longer_lists(ps, more, args, others, (n - 1) as nat);
        assert((ps + more)[n - 1] == ps[n - 1]);
        assert((args + others)[n - 1] == args[n - 1]);
    }
}

/// Each type parameter stands for the argument in its place.
pub proof fn arguments_of_parameters(
    ps: Seq<ParamKind>,
    args: Seq<GenericArg>,
    p: ParamKind,
    a: GenericArg,
    name: Seq<char>,
)
    requires
        ps.len() == args.len(),
    ensures
        ({
            let before = all_type_args(ps, args);
            let after = all_type_args(ps.push(p), args.push(a));
            match (p, a) {
                (ParamKind::Type { name: n, .. }, GenericArg::Type(t)) => lookup(after, name)
                    == (if n
                    == name {
                    Some(t)
                } else {
                    lookup(before, name)
                }),
                _ => after == before,
            }
        }),
{
    let n = ps.len();
    assert(ps.push(p) =~= ps + seq![p]);
    assert(args.push(a) =~= args + seq![a]);
    type_args_of_longer_lists(ps, seq![p], args, seq![a], n);
    assert(ps.push(p)[n as int] == p);
    assert(args.push(a)[n as int] == a);
    let before = all_type_args(ps, args);
    if let (ParamKind::Type { name: k, .. }, GenericArg::Type(t)) = (p, a) {
        put_then_lookup(before, k, t, name);
    }
}

} // verus!
