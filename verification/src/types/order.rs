//! The order of declarations does not matter.
use crate::tree::{Item, ItemKind, Program};
use crate::types::checker::nothing;
use crate::types::checks::checked;
use crate::types::model::{Registry, TraitShape};
use crate::types::names::get;
use crate::types::rules::{
    add_all_impls, add_impls, declare, declare_all, enum_shape, function_shape, struct_shape,
    trait_methods, State,
};
use vstd::prelude::*;

verus! {

/// What an item declares on its own.
pub open spec fn declared_by(item: Item) -> Registry {
    declare(nothing().reg, item)
}

/// What all of some items declare, on top of what is declared already.
pub open spec fn with_all(reg: Registry, items: Seq<Item>) -> Registry {
    declare_all(reg, items, items.len())
}

/// The declarations of `b` on top of those of `a`.
pub open spec fn over(a: Registry, b: Registry) -> Registry {
    Registry {
        structs: a.structs.union_prefer_right(b.structs),
        enums: a.enums.union_prefer_right(b.enums),
        functions: a.functions.union_prefer_right(b.functions),
        traits: a.traits.union_prefer_right(b.traits),
        impls: a.impls,
    }
}

/// Whether no name is declared twice.
pub open spec fn apart(a: Registry, b: Registry) -> bool {
    &&& a.structs.dom().disjoint(b.structs.dom())
    &&& a.enums.dom().disjoint(b.enums.dom())
    &&& a.functions.dom().disjoint(b.functions.dom())
    &&& a.traits.dom().disjoint(b.traits.dom())
}

/// Whether no two of some items declare the same name.
pub open spec fn all_apart(items: Seq<Item>) -> bool {
    forall|i: int, j: int|
        0 <= i < items.len() && 0 <= j < items.len() && i != j ==> apart(
            declared_by(#[trigger] items[i]),
            declared_by(#[trigger] items[j]),
        )
}

proof fn over_twice(a: Registry, b: Registry, c: Registry)
    ensures
        over(over(a, b), c) == over(a, over(b, c)),
{
    assert(over(over(a, b), c).structs =~= over(a, over(b, c)).structs);
    assert(over(over(a, b), c).enums =~= over(a, over(b, c)).enums);
    assert(over(over(a, b), c).functions =~= over(a, over(b, c)).functions);
    assert(over(over(a, b), c).traits =~= over(a, over(b, c)).traits);
}

proof fn over_nothing(a: Registry)
    ensures
        over(a, nothing().reg) == a,
{
    assert(over(a, nothing().reg).structs =~= a.structs);
    assert(over(a, nothing().reg).enums =~= a.enums);
    assert(over(a, nothing().reg).functions =~= a.functions);
    assert(over(a, nothing().reg).traits =~= a.traits);
}

proof fn over_apart(a: Registry, b: Registry, c: Registry)
    requires
        apart(b, c),
    ensures
        over(over(a, b), c) == over(over(a, c), b),
{
    assert(over(over(a, b), c).structs =~= over(over(a, c), b).structs);
    assert(over(over(a, b), c).enums =~= over(over(a, c), b).enums);
    assert(over(over(a, b), c).functions =~= over(over(a, c), b).functions);
    assert(over(over(a, b), c).traits =~= over(over(a, c), b).traits);
}

/// To declare an item is to put what it declares on top.
proof fn declare_is_over(reg: Registry, item: Item)
    ensures
        declare(reg, item) == over(reg, declared_by(item)),
    decreases item, 0nat,
{
    let blank = nothing().reg;
    let r = over(reg, declared_by(item));
    match item.kind {
        ItemKind::Mod(m) => {
            declare_all_is_over(reg, m.items, m.items.len());
        },
        _ => {
            over_nothing(reg);
            assert(declare(reg, item).structs =~= r.structs);
            assert(declare(reg, item).enums =~= r.enums);
            assert(declare(reg, item).functions =~= r.functions);
            assert(declare(reg, item).traits =~= r.traits);
        },
    }
}

proof fn declare_all_is_over(reg: Registry, items: Seq<Item>, n: nat)
    ensures
        declare_all(reg, items, n) == over(reg, declare_all(nothing().reg, items, n)),
    decreases items, n,
{
    if n == 0 || n > items.len() {
        over_nothing(reg);
    } else {
        let before = declare_all(nothing().reg, items, (n - 1) as nat);
        declare_all_is_over(reg, items, (n - 1) as nat);
        declare_is_over(over(reg, before), items[n - 1]);
        declare_is_over(before, items[n - 1]);
        over_twice(reg, before, declared_by(items[n - 1]));
    }
}

/// Two items that declare different names can change places.
proof fn neighbours_change_places(reg: Registry, x: Item, y: Item)
    requires
        apart(declared_by(x), declared_by(y)),
    ensures
        declare(declare(reg, x), y) == declare(declare(reg, y), x),
{
    declare_is_over(reg, x);
    declare_is_over(reg, y);
    declare_is_over(declare(reg, x), y);
    declare_is_over(declare(reg, y), x);
    over_apart(reg, declared_by(x), declared_by(y));
}

proof fn same_start(reg: Registry, a: Seq<Item>, b: Seq<Item>, n: nat)
    requires
        n <= a.len(),
        n <= b.len(),
        forall|i: int| 0 <= i < n ==> #[trigger] a[i] == b[i],
    ensures
        declare_all(reg, a, n) == declare_all(reg, b, n),
    decreases n,
{
    if n > 0 {
        same_start(reg, a, b, (n - 1) as nat);
    }
}

proof fn one_more(reg: Registry, items: Seq<Item>, x: Item)
    ensures
        with_all(reg, items.push(x)) == declare(with_all(reg, items), x),
{
    same_start(reg, items.push(x), items, items.len());
}

/// An item that declares other names than those behind it can be moved to the end.
proof fn to_the_end(reg: Registry, items: Seq<Item>, j: int)
    requires
        0 <= j < items.len(),
        forall|i: int|
            j < i < items.len() ==> apart(declared_by(items[j]), declared_by(#[trigger] items[i])),
    ensures
        with_all(reg, items) == declare(with_all(reg, items.remove(j)), items[j]),
    decreases items.len(),
{
    let rest = items.drop_last();
    let y = items.last();
    assert(items =~= rest.push(y));
    one_more(reg, rest, y);
    if j == items.len() - 1 {
        assert(items.remove(j) =~= rest);
    } else {
        to_the_end(reg, rest, j);
        assert(items.remove(j) =~= rest.remove(j).push(y));
        one_more(reg, rest.remove(j), y);
        neighbours_change_places(with_all(reg, rest.remove(j)), items[j], y);
    }
}

/// The order of declarations does not matter: where no name is declared twice, the same
/// items in any order declare the same.
pub proof fn order_of_declarations_does_not_matter(reg: Registry, a: Seq<Item>, b: Seq<Item>)
    requires
        a.to_multiset() == b.to_multiset(),
        all_apart(a),
        all_apart(b),
    ensures
        with_all(reg, a) == with_all(reg, b),
    decreases a.len(),
{
    a.to_multiset_ensures();
    b.to_multiset_ensures();
    if a.len() == 0 {
        assert(a =~= b);
    } else {
        let x = a.last();
        let rest = a.drop_last();
        assert(a =~= rest.push(x));
        assert(a.contains(x));
        assert(b.to_multiset().count(x) > 0);
        let j = choose|j: int| 0 <= j < b.len() && b[j] == x;
        one_more(reg, rest, x);
        to_the_end(reg, b, j);
        rest.to_multiset_ensures();
        assert(rest.to_multiset() =~= a.to_multiset().remove(x));
        assert(b.remove(j).to_multiset() =~= b.to_multiset().remove(x));
        assert forall|p: int, q: int|
            0 <= p < b.remove(j).len() && 0 <= q < b.remove(j).len() && p != q implies apart(
            declared_by(#[trigger] b.remove(j)[p]),
            declared_by(#[trigger] b.remove(j)[q]),
        ) by {
            let p1 = if p < j {
                p
            } else {
                p + 1
            };
            let q1 = if q < j {
                q
            } else {
                q + 1
            };
            assert(b.remove(j)[p] == b[p1]);
            assert(b.remove(j)[q] == b[q1]);
        }
        assert forall|p: int, q: int|
            0 <= p < rest.len() && 0 <= q < rest.len() && p != q implies apart(
            declared_by(#[trigger] rest[p]),
            declared_by(#[trigger] rest[q]),
        ) by {
            assert(rest[p] == a[p]);
            assert(rest[q] == a[q]);
        }
        order_of_declarations_does_not_matter(reg, rest, b.remove(j));
    }
}

/// Whether two registries have the same declarations, whatever their `impl` blocks.
pub open spec fn same_declarations(a: Registry, b: Registry) -> bool {
    &&& a.structs == b.structs
    &&& a.enums == b.enums
    &&& a.functions == b.functions
    &&& a.traits == b.traits
}

pub proof fn impls_declare_nothing(s: State, item: Item)
    ensures
        same_declarations(add_impls(s, item).reg, s.reg),
    decreases item, 0nat,
{
    if let ItemKind::Mod(m) = item.kind {
        all_impls_declare_nothing(s, m.items, m.items.len());
    }
}

proof fn all_impls_declare_nothing(s: State, items: Seq<Item>, n: nat)
    ensures
        same_declarations(add_all_impls(s, items, n).reg, s.reg),
    decreases items, n,
{
    if n == 0 || n > items.len() {
    } else {
        all_impls_declare_nothing(s, items, (n - 1) as nat);
        impls_declare_nothing(add_all_impls(s, items, (n - 1) as nat), items[n - 1]);
    }
}

/// The bodies of a program are checked against the same declarations, in whatever order its
/// items stand.
pub proof fn bodies_see_the_same_declarations(s: State, a: Program, b: Program)
    requires
        a.items.to_multiset() == b.items.to_multiset(),
        all_apart(a.items),
        all_apart(b.items),
    ensures
        same_declarations(checked(s, a).reg, checked(s, b).reg),
{
    order_of_declarations_does_not_matter(s.reg, a.items, b.items);
    let sa = State { reg: with_all(s.reg, a.items), errs: s.errs };
    let sb = State { reg: with_all(s.reg, b.items), errs: s.errs };
    all_impls_declare_nothing(sa, a.items, a.items.len());
    all_impls_declare_nothing(sb, b.items, b.items.len());
}

/// What is declared is known in every body of the program, before the declaration as well
/// as after it, unless a later item declares the name anew.
pub proof fn declarations_are_known_everywhere(s: State, p: Program, j: int)
    requires
        0 <= j < p.items.len(),
        forall|i: int|
            j < i < p.items.len() ==> apart(
                declared_by(p.items[j]),
                declared_by(#[trigger] p.items[i]),
            ),
    ensures
        match p.items[j].kind {
            ItemKind::Struct(d) => get(checked(s, p).reg.structs, d.name) == Some(
                struct_shape(d),
            ),
            ItemKind::Enum(d) => get(checked(s, p).reg.enums, d.name) == Some(enum_shape(d)),
            ItemKind::Fn(f) => get(checked(s, p).reg.functions, f.name) == Some(
                function_shape(f),
            ),
            ItemKind::Trait(t) => get(checked(s, p).reg.traits, t.name) == Some(
                TraitShape { methods: trait_methods(t.items, t.items.len()) },
            ),
            _ => true,
        },
{
    to_the_end(s.reg, p.items, j);
    let declared = State { reg: with_all(s.reg, p.items), errs: s.errs };
    all_impls_declare_nothing(declared, p.items, p.items.len());
}

} // verus!
