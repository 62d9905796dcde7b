//! The errors of a program are the same in whatever order its items stand.
use crate::tree::{ImplItem, Item, ItemKind, Program};
use crate::types::checks::{check, check_all, checked, impl_functions, known};
use crate::types::growth::{add_impls_grows, check_grows};
use crate::types::model::{ImplRecord, Problem, Registry, Ty};
use crate::types::names::lookup;
use crate::types::order::{
    all_apart, apart, declared_by, impls_declare_nothing, order_of_declarations_does_not_matter,
    same_declarations, with_all,
};
use crate::types::rules::{
    add_all_impls, add_impls, any_method_from, concrete_method, inherent_method_from, lookup_name,
    primitive, satisfies, State,
};
use vstd::prelude::*;
use vstd::seq_lib::lemma_multiset_commutative;

verus! {

/// The lists that `f` gives for the first `n` of some items, one behind the other.
spec fn flat<T>(items: Seq<Item>, f: spec_fn(Item) -> Seq<T>, n: nat) -> Seq<T>
    decreases n,
{
    if n == 0 || n > items.len() {
        seq![]
    } else {
        flat(items, f, (n - 1) as nat) + f(items[n - 1])
    }
}

proof fn flat_start<T>(a: Seq<Item>, b: Seq<Item>, f: spec_fn(Item) -> Seq<T>, n: nat)
    requires
        n <= a.len(),
        n <= b.len(),
        forall|i: int| 0 <= i < n ==> #[trigger] a[i] == b[i],
    ensures
        flat(a, f, n) == flat(b, f, n),
    decreases n,
{
    if n > 0 {
        flat_start(a, b, f, (n - 1) as nat);
    }
}

/// One item taken out takes its list out.
proof fn flat_without<T>(items: Seq<Item>, f: spec_fn(Item) -> Seq<T>, j: int)
    requires
        0 <= j < items.len(),
    ensures
        flat(items, f, items.len()).to_multiset() == flat(
            items.remove(j),
            f,
            items.remove(j).len(),
        ).to_multiset().add(f(items[j]).to_multiset()),
    decreases items.len(),
{
    let n = items.len();
    let y = items.last();
    let start = items.drop_last();
    flat_start(items, start, f, (n - 1) as nat);
    let head = flat(start, f, start.len());
    lemma_multiset_commutative(head, f(y));
    if j == n - 1 {
        assert(items.remove(j) =~= start);
    } else {
        flat_without(start, f, j);
        let rest = start.remove(j);
        assert(items.remove(j) =~= rest.push(y));
        flat_start(items.remove(j), rest, f, rest.len());
        lemma_multiset_commutative(flat(rest, f, rest.len()), f(y));
        assert(items.remove(j)[rest.len() as int] == y);
        assert(flat(items, f, n).to_multiset() =~= flat(
            items.remove(j),
            f,
            items.remove(j).len(),
        ).to_multiset().add(f(items[j]).to_multiset()));
    }
}

/// The same items in any order give the same lists together.
proof fn flat_of_permutation<T>(a: Seq<Item>, b: Seq<Item>, f: spec_fn(Item) -> Seq<T>)
    requires
        a.to_multiset() == b.to_multiset(),
    ensures
        flat(a, f, a.len()).to_multiset() == flat(b, f, b.len()).to_multiset(),
    decreases a.len(),
{
    a.to_multiset_ensures();
    b.to_multiset_ensures();
    if a.len() == 0 {
        assert(a =~= b);
    } else {
        let x = a.last();
        let i = a.len() - 1;
        let j = place_of(b, a, i);
        assert(a.remove(i).to_multiset() =~= b.remove(j).to_multiset());
        flat_of_permutation(a.remove(i), b.remove(j), f);
        flat_without(a, f, i);
        flat_without(b, f, j);
    }
}

/// What stands in a list stands in any permutation.
proof fn place_of<T>(a: Seq<T>, b: Seq<T>, i: int) -> (p: int)
    requires
        a.to_multiset() == b.to_multiset(),
        0 <= i < b.len(),
    ensures
        0 <= p < a.len(),
        a[p] == b[i],
{
    a.to_multiset_ensures();
    b.to_multiset_ensures();
    assert(b.contains(b[i]));
    assert(b.to_multiset().count(b[i]) > 0);
    assert(a.contains(b[i]));
    choose|p: int| 0 <= p < a.len() && a[p] == b[i]
}

/// What stands in two places of a list stands in two places of any permutation.
proof fn two_places<T>(a: Seq<T>, b: Seq<T>, i: int, j: int) -> (r: (int, int))
    requires
        a.to_multiset() == b.to_multiset(),
        0 <= i < b.len(),
        0 <= j < b.len(),
        i != j,
    ensures
        0 <= r.0 < a.len(),
        0 <= r.1 < a.len(),
        r.0 != r.1,
        a[r.0] == b[i],
        a[r.1] == b[j],
{
    a.to_multiset_ensures();
    b.to_multiset_ensures();
    let p = place_of(a, b, i);
    let x = a.remove(p);
    let y = b.remove(i);
    assert(x.to_multiset() =~= y.to_multiset());
    let k = if j < i {
        j
    } else {
        j - 1
    };
    assert(y[k] == b[j]);
    let q = place_of(x, y, k);
    (
        p,
        if q < p {
            q
        } else {
            q + 1
        },
    )
}

/// A registry without its `impl` blocks.
spec fn stripped(reg: Registry) -> Registry {
    Registry { impls: seq![], ..reg }
}

/// What the `impl` blocks of an item come to on their own.
spec fn own_impls(reg: Registry, item: Item) -> State {
    add_impls(State { reg: stripped(reg), errs: seq![] }, item)
}

/// The `impl` blocks and the problems of `o` behind those of `s`.
spec fn joined(s: State, o: State) -> State {
    State {
        reg: Registry { impls: s.reg.impls + o.reg.impls, ..s.reg },
        errs: s.errs + o.errs,
    }
}

proof fn impls_join(s: State, item: Item)
    ensures
        add_impls(s, item) == joined(s, own_impls(s.reg, item)),
    decreases item, 0nat,
{
    let o = own_impls(s.reg, item);
    let blank = State { reg: s.reg, errs: seq![] };
    match item.kind {
        ItemKind::Impl(d) => {
            add_impls_grows(blank, item, s.errs);
            assert(s.errs + blank.errs =~= s.errs);
            assert(add_impls(blank, item).errs == o.errs);
            assert(add_impls(s, item).reg.impls =~= s.reg.impls + o.reg.impls);
        },
        ItemKind::Mod(m) => all_impls_join(s, m.items, m.items.len()),
        _ => {
            assert(s.errs + o.errs =~= s.errs);
            assert(s.reg.impls + o.reg.impls =~= s.reg.impls);
        },
    }
}

proof fn all_impls_join(s: State, items: Seq<Item>, n: nat)
    ensures
        add_all_impls(s, items, n) == joined(
            s,
            add_all_impls(State { reg: stripped(s.reg), errs: seq![] }, items, n),
        ),
        same_declarations(add_all_impls(s, items, n).reg, s.reg),
    decreases items, n,
{
    let blank = State { reg: stripped(s.reg), errs: seq![] };
    if n == 0 || n > items.len() {
        assert(s.errs + blank.errs =~= s.errs);
        assert(s.reg.impls + blank.reg.impls =~= s.reg.impls);
    } else {
        let x = items[n - 1];
        all_impls_join(s, items, (n - 1) as nat);
        all_impls_join(blank, items, (n - 1) as nat);
        let before = add_all_impls(s, items, (n - 1) as nat);
        let own = add_all_impls(blank, items, (n - 1) as nat);
        impls_join(before, x);
        impls_join(own, x);
        impls_declare_nothing(before, x);
        assert(stripped(before.reg) == stripped(s.reg));
        assert(stripped(own.reg) == stripped(s.reg));
        let o = own_impls(s.reg, x);
        assert(joined(joined(s, own), o).errs =~= joined(s, joined(own, o)).errs);
        assert(joined(joined(s, own), o).reg.impls =~= joined(s, joined(own, o)).reg.impls);
    }
}

/// The `impl` blocks of some items are those of each, one behind the other, and so are their
/// problems.
proof fn impls_are_flat(s: State, items: Seq<Item>, n: nat)
    requires
        n <= items.len(),
    ensures
        add_all_impls(s, items, n).errs == s.errs + flat(
            items,
            |x: Item| own_impls(s.reg, x).errs,
            n,
        ),
        add_all_impls(s, items, n).reg.impls == s.reg.impls + flat(
            items,
            |x: Item| own_impls(s.reg, x).reg.impls,
            n,
        ),
        same_declarations(add_all_impls(s, items, n).reg, s.reg),
    decreases n,
{
    let f = |x: Item| own_impls(s.reg, x).errs;
    let h = |x: Item| own_impls(s.reg, x).reg.impls;
    if n > 0 {
        let x = items[n - 1];
        impls_are_flat(s, items, (n - 1) as nat);
        let before = add_all_impls(s, items, (n - 1) as nat);
        impls_join(before, x);
        impls_declare_nothing(before, x);
        assert(stripped(before.reg) == stripped(s.reg));
        assert(s.errs + flat(items, f, (n - 1) as nat) + f(x) =~= s.errs + flat(items, f, n));
        assert(s.reg.impls + flat(items, h, (n - 1) as nat) + h(x) =~= s.reg.impls + flat(
            items,
            h,
            n,
        ));
    } else {
        assert(s.errs + flat(items, f, n) =~= s.errs);
        assert(s.reg.impls + flat(items, h, n) =~= s.reg.impls);
    }
}

/// The problems in the bodies of some items are those of each, one behind the other.
proof fn checks_are_flat(reg: Registry, items: Seq<Item>, n: nat, errs: Seq<Problem>)
    requires
        n <= items.len(),
    ensures
        check_all(reg, items, n, errs) == errs + flat(
            items,
            |x: Item| check(reg, x, seq![]),
            n,
        ),
    decreases n,
{
    let f = |x: Item| check(reg, x, seq![]);
    if n > 0 {
        let x = items[n - 1];
        checks_are_flat(reg, items, (n - 1) as nat, errs);
        let before = check_all(reg, items, (n - 1) as nat, errs);
        check_grows(reg, x, seq![], before);
        assert(before + Seq::<Problem>::empty() =~= before);
        assert(errs + flat(items, f, (n - 1) as nat) + f(x) =~= errs + flat(items, f, n));
    } else {
        assert(errs + flat(items, f, n) =~= errs);
    }
}

/// The bodies of an item have the same problems wherever the same is known.
proof fn known_is_enough(a: Registry, b: Registry, item: Item, errs: Seq<Problem>)
    requires
        known(a) == known(b),
    ensures
        check(a, item, errs) == check(b, item, errs),
    decreases item, 0nat,
{
    match item.kind {
        ItemKind::Impl(d) => known_is_enough_for_impl(
            a,
            b,
            d.items,
            primitive(d.target.name),
            d.items.len(),
            errs,
        ),
        ItemKind::Mod(m) => known_is_enough_for_all(a, b, m.items, m.items.len(), errs),
        _ => {},
    }
}

proof fn known_is_enough_for_impl(
    a: Registry,
    b: Registry,
    items: Seq<ImplItem>,
    own: Ty,
    n: nat,
    errs: Seq<Problem>,
)
    requires
        known(a) == known(b),
    ensures
        impl_functions(a, items, own, n, errs) == impl_functions(b, items, own, n, errs),
    decreases n,
{
    if n == 0 || n > items.len() {
    } else {
        known_is_enough_for_impl(a, b, items, own, (n - 1) as nat, errs);
    }
}

proof fn known_is_enough_for_all(
    a: Registry,
    b: Registry,
    items: Seq<Item>,
    n: nat,
    errs: Seq<Problem>,
)
    requires
        known(a) == known(b),
    ensures
        check_all(a, items, n, errs) == check_all(b, items, n, errs),
    decreases items, n,
{
    if n == 0 || n > items.len() {
    } else {
        known_is_enough_for_all(a, b, items, (n - 1) as nat, errs);
        known_is_enough(a, b, items[n - 1], check_all(a, items, (n - 1) as nat, errs));
    }
}

/// Whether an `impl` block of a type has a method.
pub open spec fn has_method(
    block: (Seq<char>, ImplRecord),
    target: Seq<char>,
    name: Seq<char>,
) -> bool {
    block.0 == target && lookup(block.1.methods, name) is Some
}

/// Whether no two `impl` blocks of one type have a method of the same name.
pub open spec fn methods_apart(impls: Seq<(Seq<char>, ImplRecord)>) -> bool {
    forall|i: int, j: int, target: Seq<char>, name: Seq<char>|
        0 <= i < impls.len() && 0 <= j < impls.len() && i != j ==> !(#[trigger] has_method(
            impls[i],
            target,
            name,
        ) && #[trigger] has_method(impls[j], target, name))
}

proof fn methods_stay_apart(
    a: Seq<(Seq<char>, ImplRecord)>,
    b: Seq<(Seq<char>, ImplRecord)>,
)
    requires
        a.to_multiset() == b.to_multiset(),
        methods_apart(a),
    ensures
        methods_apart(b),
{
    assert forall|i: int, j: int, target: Seq<char>, name: Seq<char>|
        0 <= i < b.len() && 0 <= j < b.len() && i != j implies !(#[trigger] has_method(
        b[i],
        target,
        name,
    ) && #[trigger] has_method(b[j], target, name)) by {
        let (p, q) = two_places(a, b, i, j);
        assert(!(has_method(a[p], target, name) && has_method(a[q], target, name)));
    }
}

/// The only block with a method is the one that a call reaches.
proof fn only_method(
    reg: Registry,
    target: Seq<char>,
    name: Seq<char>,
    i: int,
)
    requires
        methods_apart(reg.impls),
        0 <= i < reg.impls.len(),
        has_method(reg.impls[i], target, name),
    ensures
        concrete_method(reg, target, name) == lookup(reg.impls[i].1.methods, name),
{
    only_inherent(reg.impls, target, name, i, 0);
    only_any(reg.impls, target, name, i, 0);
}

proof fn only_inherent(
    impls: Seq<(Seq<char>, ImplRecord)>,
    target: Seq<char>,
    name: Seq<char>,
    i: int,
    from: nat,
)
    requires
        methods_apart(impls),
        0 <= i < impls.len(),
        has_method(impls[i], target, name),
    ensures
        inherent_method_from(impls, target, name, from) is Some ==> inherent_method_from(
            impls,
            target,
            name,
            from,
        ) == lookup(impls[i].1.methods, name),
    decreases impls.len() - from,
{
    if from < impls.len() {
        if from != i {
            assert(!has_method(impls[from as int], target, name));
        }
        only_inherent(impls, target, name, i, from + 1);
    }
}

proof fn only_any(
    impls: Seq<(Seq<char>, ImplRecord)>,
    target: Seq<char>,
    name: Seq<char>,
    i: int,
    from: nat,
)
    requires
        methods_apart(impls),
        0 <= i < impls.len(),
        has_method(impls[i], target, name),
    ensures
        from <= i ==> any_method_from(impls, target, name, from) == lookup(
            impls[i].1.methods,
            name,
        ),
    decreases impls.len() - from,
{
    if from < i {
        assert(!has_method(impls[from as int], target, name));
        only_any(impls, target, name, i, from + 1);
    }
}

/// Without a block that has a method, a call reaches none.
proof fn no_method(
    impls: Seq<(Seq<char>, ImplRecord)>,
    target: Seq<char>,
    name: Seq<char>,
    from: nat,
)
    requires
        forall|i: int|
            0 <= i < impls.len() ==> !has_method(#[trigger] impls[i], target, name),
    ensures
        inherent_method_from(impls, target, name, from) is None,
        any_method_from(impls, target, name, from) is None,
    decreases impls.len() - from,
{
    if from < impls.len() {
        assert(!has_method(impls[from as int], target, name));
        no_method(impls, target, name, from + 1);
    }
}

/// The same is known with the same `impl` blocks in any order.
proof fn known_of_permutation(a: Registry, b: Registry)
    requires
        same_declarations(a, b),
        a.impls.to_multiset() == b.impls.to_multiset(),
        methods_apart(a.impls),
    ensures
        known(a) == known(b),
{
    methods_stay_apart(a.impls, b.impls);
    assert forall|target: Seq<char>, name: Seq<char>|
        concrete_method(a, target, name) == concrete_method(b, target, name) by {
        if exists|i: int|
            0 <= i < a.impls.len() && has_method(#[trigger] a.impls[i], target, name) {
            let i = choose|i: int|
                0 <= i < a.impls.len() && has_method(#[trigger] a.impls[i], target, name);
            let j = place_of(b.impls, a.impls, i);
            only_method(a, target, name, i);
            only_method(b, target, name, j);
        } else {
            assert forall|j: int| 0 <= j < b.impls.len() implies !has_method(
                #[trigger] b.impls[j],
                target,
                name,
            ) by {
                let i = place_of(a.impls, b.impls, j);
                assert(!has_method(a.impls[i], target, name));
            }
            no_method(a.impls, target, name, 0);
            no_method(b.impls, target, name, 0);
        }
    }
    assert forall|t: Ty, name: Seq<char>| satisfies(a, t, name) == satisfies(b, t, name) by {
        satisfied_in(a, b, t, name);
        satisfied_in(b, a, t, name);
    }
    assert(known(a).methods =~= known(b).methods);
    assert(known(a).satisfied =~= known(b).satisfied);
}

proof fn satisfied_in(a: Registry, b: Registry, t: Ty, name: Seq<char>)
    requires
        a.impls.to_multiset() == b.impls.to_multiset(),
    ensures
        satisfies(a, t, name) ==> satisfies(b, t, name),
{
    if satisfies(a, t, name) {
        let key = lookup_name(t)->0;
        let i = choose|i: int|
            0 <= i < a.impls.len() && (#[trigger] a.impls[i]).0 == key
                && a.impls[i].1.trait_name == Some(name);
        let j = place_of(b.impls, a.impls, i);
        assert(b.impls[j].0 == key);
    }
}

/// The order of items does not matter: where no two declare the same name, and no two `impl`
/// blocks of one type have a method of the same name, the items of a program in any order
/// have the same errors.
pub proof fn order_of_items_does_not_matter(s: State, a: Program, b: Program)
    requires
        a.items.to_multiset() == b.items.to_multiset(),
        all_apart(a.items),
        methods_apart(checked(s, a).reg.impls),
    ensures
        checked(s, a).errs.to_multiset() == checked(s, b).errs.to_multiset(),
        checked(s, a).errs.len() == checked(s, b).errs.len(),
{
    let x = a.items;
    let y = b.items;
    x.to_multiset_ensures();
    y.to_multiset_ensures();
    assert forall|i: int, j: int| 0 <= i < y.len() && 0 <= j < y.len() && i != j implies apart(
        declared_by(#[trigger] y[i]),
        declared_by(#[trigger] y[j]),
    ) by {
        let (p, q) = two_places(x, y, i, j);
        assert(apart(declared_by(x[p]), declared_by(x[q])));
    }
    order_of_declarations_does_not_matter(s.reg, x, y);
    let d = State { reg: with_all(s.reg, x), errs: s.errs };
    let f = |i: Item| own_impls(d.reg, i).errs;
    let h = |i: Item| own_impls(d.reg, i).reg.impls;
    impls_are_flat(d, x, x.len());
    impls_are_flat(d, y, y.len());
    let cx = add_all_impls(d, x, x.len());
    let cy = add_all_impls(d, y, y.len());
    flat_of_permutation(x, y, f);
    flat_of_permutation(x, y, h);
    lemma_multiset_commutative(d.errs, flat(x, f, x.len()));
    lemma_multiset_commutative(d.errs, flat(y, f, y.len()));
    lemma_multiset_commutative(d.reg.impls, flat(x, h, x.len()));
    lemma_multiset_commutative(d.reg.impls, flat(y, h, y.len()));
    assert(cx.errs.to_multiset() =~= cy.errs.to_multiset());
    assert(cx.reg.impls.to_multiset() =~= cy.reg.impls.to_multiset());
    known_of_permutation(cx.reg, cy.reg);
    known_is_enough_for_all(cx.reg, cy.reg, y, y.len(), cy.errs);
    checks_are_flat(cx.reg, x, x.len(), cx.errs);
    checks_are_flat(cx.reg, y, y.len(), cy.errs);
    let k = |i: Item| check(cx.reg, i, seq![]);
    flat_of_permutation(x, y, k);
    lemma_multiset_commutative(cx.errs, flat(x, k, x.len()));
    lemma_multiset_commutative(cy.errs, flat(y, k, y.len()));
    assert(checked(s, a).errs.to_multiset() =~= checked(s, b).errs.to_multiset());
    checked(s, a).errs.to_multiset_ensures();
    checked(s, b).errs.to_multiset_ensures();
}

} // verus!
