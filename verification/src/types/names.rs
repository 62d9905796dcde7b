//! Names with a value each, in the order in which the names came.
use crate::ast_tree::Syntax;
use crate::text::same_text;
use vstd::prelude::*;

verus! {

/// The value of the last entry with a name, among the first `n`.
pub open spec fn found_in<T>(d: Seq<(Seq<char>, T)>, key: Seq<char>, n: nat) -> Option<T>
    decreases n,
{
    if n == 0 || n > d.len() {
        None
    } else if d[n - 1].0 == key {
        Some(d[n - 1].1)
    } else {
        found_in(d, key, (n - 1) as nat)
    }
}

/// The value of a name: that of its last entry.
pub open spec fn lookup<T>(d: Seq<(Seq<char>, T)>, key: Seq<char>) -> Option<T> {
    found_in(d, key, d.len())
}

/// The place of the last entry with a name, among the first `n`.
pub open spec fn place_in<T>(d: Seq<(Seq<char>, T)>, key: Seq<char>, n: nat) -> Option<int>
    decreases n,
{
    if n == 0 || n > d.len() {
        None
    } else if d[n - 1].0 == key {
        Some(n - 1)
    } else {
        place_in(d, key, (n - 1) as nat)
    }
}

/// With a value for a name: in the place of the old one, or at the end.
pub open spec fn put<T>(d: Seq<(Seq<char>, T)>, key: Seq<char>, v: T) -> Seq<(Seq<char>, T)> {
    match place_in(d, key, d.len()) {
        Some(i) => d.update(i, (key, v)),
        None => d.push((key, v)),
    }
}

/// The value of the first entry with a name, from `i` on.
pub open spec fn first_from<T>(d: Seq<(Seq<char>, T)>, key: Seq<char>, i: nat) -> Option<T>
    decreases d.len() - i,
{
    if i >= d.len() {
        None
    } else if d[i as int].0 == key {
        Some(d[i as int].1)
    } else {
        first_from(d, key, i + 1)
    }
}

/// The value of the first entry with a name.
pub open spec fn first<T>(d: Seq<(Seq<char>, T)>, key: Seq<char>) -> Option<T> {
    first_from(d, key, 0)
}

/// Whether no name occurs twice.
pub open spec fn distinct<T>(d: Seq<(Seq<char>, T)>) -> bool {
    forall|i: int, j: int| 0 <= i < j < d.len() ==> (#[trigger] d[i]).0 != (#[trigger] d[j]).0
}

/// The place of a name holds its value, and no later entry has that name.
pub proof fn place_holds_value<T>(d: Seq<(Seq<char>, T)>, key: Seq<char>, n: nat)
    requires
        n <= d.len(),
    ensures
        match place_in(d, key, n) {
            Some(i) => 0 <= i < n && d[i].0 == key && found_in(d, key, n) == Some(d[i].1) && forall|
                j: int,
            |
                i < j < n ==> (#[trigger] d[j]).0 != key,
            None => found_in(d, key, n) is None && forall|j: int|
                0 <= j < n ==> (#[trigger] d[j]).0 != key,
        },
    decreases n,
{
    if n > 0 && d[n - 1].0 != key {
        place_holds_value(d, key, (n - 1) as nat);
    }
}

/// What is found among entries that agree, but for one that comes before all with the name
/// or has another name.
proof fn found_in_same<T>(a: Seq<(Seq<char>, T)>, b: Seq<(Seq<char>, T)>, key: Seq<char>, n: nat)
    requires
        n <= a.len(),
        n <= b.len(),
        forall|j: int|
            0 <= j < n ==> (#[trigger] a[j]).0 == b[j].0 && (a[j].0 == key ==> a[j] == b[j]),
    ensures
        found_in(a, key, n) == found_in(b, key, n),
    decreases n,
{
    if n > 0 {
        found_in_same(a, b, key, (n - 1) as nat);
    }
}

/// A value that was put is found under its name, and what is found under any other name
/// stays the same.
pub proof fn put_then_lookup<T>(d: Seq<(Seq<char>, T)>, key: Seq<char>, v: T, other: Seq<char>)
    ensures
        lookup(put(d, key, v), other) == (if other == key {
            Some(v)
        } else {
            lookup(d, other)
        }),
{
    place_holds_value(d, key, d.len());
    let p = put(d, key, v);
    match place_in(d, key, d.len()) {
        Some(i) => {
            if other == key {
                place_holds_value(p, key, p.len());
                assert(p[i] == (key, v));
                let k = place_in(p, key, p.len());
                assert(k is Some && k->0 >= i);
                if k->0 > i {
                    assert(p[k->0] == d[k->0]);
                }
            } else {
                found_in_same(p, d, other, d.len());
            }
        },
        None => {
            if other != key {
                assert(found_in(p, other, p.len()) == found_in(p, other, d.len()));
                found_in_same(p, d, other, d.len());
            }
        },
    }
}

/// Putting a value keeps every name to a single entry.
pub proof fn put_keeps_distinct<T>(d: Seq<(Seq<char>, T)>, key: Seq<char>, v: T)
    requires
        distinct(d),
    ensures
        distinct(put(d, key, v)),
{
    place_holds_value(d, key, d.len());
    let p = put(d, key, v);
    assert forall|i: int, j: int| 0 <= i < j < p.len() implies (#[trigger] p[i]).0 != (
    #[trigger] p[j]).0 by {
        match place_in(d, key, d.len()) {
            Some(k) => {
                assert(p[i].0 == d[i].0);
                assert(p[j].0 == d[j].0);
            },
            None => {
                if j < d.len() {
                    assert(p[i] == d[i]);
                    assert(p[j] == d[j]);
                } else {
                    assert(p[i] == d[i]);
                }
            },
        }
    }
}

/// Where no name occurs twice, the first entry of a name is the last.
pub proof fn first_is_last<T>(d: Seq<(Seq<char>, T)>, key: Seq<char>)
    requires
        distinct(d),
    ensures
        first(d, key) == lookup(d, key),
{
    place_holds_value(d, key, d.len());
    first_from_finds(d, key, 0);
    match place_in(d, key, d.len()) {
        Some(i) => {
            if let Some(v) = first(d, key) {
                let k = choose|k: int|
                    0 <= k < d.len() && (#[trigger] d[k]).0 == key && d[k].1 == v;
                assert(k == i);
            } else {
                assert(d[i].0 == key);
            }
        },
        None => {},
    }
}

proof fn first_from_finds<T>(d: Seq<(Seq<char>, T)>, key: Seq<char>, i: nat)
    ensures
        match first_from(d, key, i) {
            Some(v) => exists|k: int|
                i <= k < d.len() && (#[trigger] d[k]).0 == key && d[k].1 == v,
            None => forall|k: int| i <= k < d.len() ==> (#[trigger] d[k]).0 != key,
        },
    decreases d.len() - i,
{
    if i < d.len() {
        if d[i as int].0 == key {
        } else {
            first_from_finds(d, key, i + 1);
        }
    }
}

/// The value of a name in a map.
pub open spec fn get<T>(m: Map<Seq<char>, T>, key: Seq<char>) -> Option<T> {
    if m.dom().contains(key) {
        Some(m[key])
    } else {
        None
    }
}

/// The names with their values, whatever their order.
pub open spec fn as_map<T>(d: Seq<(Seq<char>, T)>) -> Map<Seq<char>, T> {
    Map::new(|key: Seq<char>| lookup(d, key) is Some, |key: Seq<char>| lookup(d, key)->0)
}

/// To put a value is to insert it in the map.
proof fn put_inserts<T>(d: Seq<(Seq<char>, T)>, key: Seq<char>, v: T)
    ensures
        as_map(put(d, key, v)) == as_map(d).insert(key, v),
{
    assert forall|other: Seq<char>|
        lookup(put(d, key, v), other) == (if other == key {
            Some(v)
        } else {
            #[trigger] lookup(d, other)
        }) by {
        put_then_lookup(d, key, v, other);
    }
    put_then_lookup(d, key, v, key);
    assert(as_map(put(d, key, v)) =~= as_map(d).insert(key, v));
}

/// The entries of a list of named values.
pub open spec fn entries<V: Syntax>(v: Seq<(String, V)>) -> Seq<(Seq<char>, V::Tree)> {
    v.map_values(|x: (String, V)| (x.0@, x.1.tree()))
}

/// A value for each of some names.
#[derive(Debug)]
pub struct Names<V> {
    list: Vec<(String, V)>,
}

impl<V> Names<V> {
    /// No name occurs twice.
    #[verifier::type_invariant]
    spec fn no_name_twice(self) -> bool {
        forall|i: int, j: int|
            0 <= i < j < self.list@.len() ==> (#[trigger] self.list@[i]).0@ != (
            #[trigger] self.list@[j]).0@
    }
}

impl<V: Syntax> Syntax for Names<V> {
    type Tree = Seq<(Seq<char>, V::Tree)>;

    closed spec fn tree(self) -> Seq<(Seq<char>, V::Tree)> {
        entries(self.list@)
    }
}

impl<V: Syntax> Names<V> {
    pub fn new() -> (r: Self)
        ensures
            r.tree() == Seq::<(Seq<char>, V::Tree)>::empty(),
            as_map(r.tree()) == Map::<Seq<char>, V::Tree>::empty(),
    {
        let r = Names { list: Vec::new() };
        assert(r.tree() =~= Seq::<(Seq<char>, V::Tree)>::empty());
        assert(as_map(r.tree()) =~= Map::<Seq<char>, V::Tree>::empty());
        r
    }

    /// How many names there are. No name occurs twice.
    pub fn len(&self) -> (r: usize)
        ensures
            r == self.tree().len(),
            distinct(self.tree()),
    {
        proof {
            use_type_invariant(self);
            assert forall|i: int, j: int| 0 <= i < j < self.tree().len() implies (
            #[trigger] self.tree()[i]).0 != (#[trigger] self.tree()[j]).0 by {
                assert(self.list@[i].0@ != self.list@[j].0@);
            }
        }
        self.list.len()
    }

    /// The entry in a place.
    pub fn at(&self, i: usize) -> (r: (&String, &V))
        requires
            i < self.tree().len(),
        ensures
            (r.0@, r.1.tree()) == self.tree()[i as int],
    {
        let e = &self.list[i];
        (&e.0, &e.1)
    }

    /// Where the last entry with a name stands.
    fn place(&self, key: &str) -> (r: Option<usize>)
        ensures
            match r {
                Some(i) => place_in(self.tree(), key@, self.tree().len()) == Some(i as int) && i
                    < self.list@.len(),
                None => place_in(self.tree(), key@, self.tree().len()) is None,
            },
    {
        let mut n = self.list.len();
        while n > 0
            invariant
                n <= self.list@.len(),
                place_in(self.tree(), key@, n as nat) == place_in(
                    self.tree(),
                    key@,
                    self.tree().len(),
                ),
            decreases n,
        {
            n = n - 1;
            if same_text(self.list[n].0.as_str(), key) {
                return Some(n);
            }
        }
        None
    }

    /// The value of a name.
    pub fn get(&self, key: &str) -> (r: Option<&V>)
        ensures
            match r {
                Some(v) => lookup(self.tree(), key@) == Some(v.tree()),
                None => lookup(self.tree(), key@) is None,
            },
            get(as_map(self.tree()), key@) == lookup(self.tree(), key@),
    {
        proof {
            place_holds_value(self.tree(), key@, self.tree().len());
        }
        match self.place(key) {
            Some(i) => Some(&self.list[i].1),
            None => None,
        }
    }

    pub fn contains_key(&self, key: &str) -> (r: bool)
        ensures
            r == (lookup(self.tree(), key@) is Some),
            get(as_map(self.tree()), key@) == lookup(self.tree(), key@),
    {
        self.get(key).is_some()
    }

    /// Gives a name a value, in place of an old one.
    pub fn insert(&mut self, key: String, v: V)
        ensures
            final(self).tree() == put(old(self).tree(), key@, v.tree()),
            as_map(final(self).tree()) == as_map(old(self).tree()).insert(key@, v.tree()),
    {
        let ghost before = self.tree();
        proof {
            use_type_invariant(&*self);
            put_inserts(before, key@, v.tree());
            place_holds_value(before, key@, before.len());
        }
        let place = self.place(key.as_str());
        let mut list: Vec<(String, V)> = Vec::new();
        std::mem::swap(&mut list, &mut self.list);
        let ghost old_list = list@;
        assert(entries(old_list) == before);
        match place {
            Some(i) => {
                list.set(i, (key, v));
                assert(entries(list@) =~= before.update(i as int, (key@, v.tree())));
                assert(forall|k: int|
                    0 <= k < list@.len() ==> (#[trigger] list@[k]).0@ == old_list[k].0@);
            },
            None => {
                list.push((key, v));
                assert(entries(list@) =~= before.push((key@, v.tree())));
                assert(forall|k: int|
                    0 <= k < old_list.len() ==> (#[trigger] old_list[k]).0@ == before[k].0);
            },
        }
        self.list = list;
    }
}

impl<V: Syntax + Clone> Clone for Names<V> {
    fn clone(&self) -> (r: Self)
        ensures
            r.tree().len() == self.tree().len(),
            forall|i: int|
                0 <= i < r.tree().len() ==> (#[trigger] r.tree()[i]).0 == self.tree()[i].0,
    {
        proof {
            use_type_invariant(self);
        }
        let mut list: Vec<(String, V)> = Vec::new();
        let mut i: usize = 0;
        while i < self.list.len()
            invariant
                i <= self.list@.len(),
                list@.len() == i,
                forall|j: int| 0 <= j < i ==> (#[trigger] list@[j]).0@ == self.list@[j].0@,
            decreases self.list@.len() - i,
        {
            list.push((self.list[i].0.clone(), self.list[i].1.clone()));
            i = i + 1;
        }
        Names { list }
    }
}

/// The value of the first entry with a name.
pub fn first_of<'a, V: Syntax>(v: &'a Vec<(String, V)>, key: &str) -> (r: Option<&'a V>)
    ensures
        match r {
            Some(x) => first(entries(v@), key@) == Some(x.tree()),
            None => first(entries(v@), key@) is None,
        },
{
    let mut i: usize = 0;
    while i < v.len()
        invariant
            i <= v@.len(),
            first_from(entries(v@), key@, i as nat) == first(entries(v@), key@),
        decreases v@.len() - i,
    {
        assert(entries(v@)[i as int] == (v@[i as int].0@, v@[i as int].1.tree()));
        if same_text(v[i].0.as_str(), key) {
            return Some(&v[i].1);
        }
        i = i + 1;
    }
    None
}

/// The value of the last entry with a name.
pub fn last_of<'a, V: Syntax>(v: &'a Vec<(String, V)>, key: &str) -> (r: Option<&'a V>)
    ensures
        match r {
            Some(x) => lookup(entries(v@), key@) == Some(x.tree()),
            None => lookup(entries(v@), key@) is None,
        },
{
    let mut n = v.len();
    while n > 0
        invariant
            n <= v@.len(),
            found_in(entries(v@), key@, n as nat) == lookup(entries(v@), key@),
        decreases n,
    {
        n = n - 1;
        assert(entries(v@)[n as int] == (v@[n as int].0@, v@[n as int].1.tree()));
        if same_text(v[n].0.as_str(), key) {
            return Some(&v[n].1);
        }
    }
    None
}

} // verus!
