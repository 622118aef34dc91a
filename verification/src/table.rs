//! A table from names to values, in which each name stands once.

use crate::text::same;
use vstd::prelude::*;

verus! {

/// No name stands twice among `entries`.
pub open spec fn distinct<X>(entries: Seq<(Seq<char>, X)>) -> bool {
    forall|i: int, j: int| 0 <= i < j < entries.len() ==> entries[i].0 != entries[j].0
}

/// `name` is the name of one of `entries`.
pub open spec fn has_name<X>(entries: Seq<(Seq<char>, X)>, name: Seq<char>) -> bool {
    exists|i: int| 0 <= i < entries.len() && (#[trigger] entries[i]).0 == name
}

/// A place in `entries` at which `name` stands.
pub open spec fn place_of<X>(entries: Seq<(Seq<char>, X)>, name: Seq<char>) -> int {
    choose|i: int| 0 <= i < entries.len() && (#[trigger] entries[i]).0 == name
}

/// The map that `entries` lists: each name of `entries`, with the value that
/// stands beside it.
pub open spec fn as_map<X>(entries: Seq<(Seq<char>, X)>) -> Map<Seq<char>, X> {
    Map::new(
        |name: Seq<char>| has_name(entries, name),
        |name: Seq<char>| entries[place_of(entries, name)].1,
    )
}

/// In a list of distinct names, the map gives each name the value beside it.
pub proof fn lemma_as_map_entry<X>(entries: Seq<(Seq<char>, X)>, i: int)
    requires
        distinct(entries),
        0 <= i < entries.len(),
    ensures
        as_map(entries).contains_key(entries[i].0),
        as_map(entries)[entries[i].0] == entries[i].1,
{
    let name = entries[i].0;
    assert(has_name(entries, name));
    let k = place_of(entries, name);
    assert(k == i) by {
        if k < i {
            assert(entries[k].0 != entries[i].0);
        } else if i < k {
            assert(entries[i].0 != entries[k].0);
        }
    }
}

/// One more entry under a new name adds that name to the map.
pub proof fn lemma_as_map_push<X>(entries: Seq<(Seq<char>, X)>, name: Seq<char>, value: X)
    requires
        distinct(entries),
        !has_name(entries, name),
    ensures
        distinct(entries.push((name, value))),
        as_map(entries.push((name, value))) == as_map(entries).insert(name, value),
{
    let longer = entries.push((name, value));
    assert forall|i: int, j: int| 0 <= i < j < longer.len() implies longer[i].0 != longer[j].0 by {
        if j == entries.len() {
            assert(entries[i].0 != name);
        } else {
            assert(entries[i].0 != entries[j].0);
        }
    }
    assert forall|k: Seq<char>| as_map(longer).contains_key(k) <==> as_map(entries).insert(
        name,
        value,
    ).contains_key(k) by {
        if has_name(longer, k) {
            let i = place_of(longer, k);
            if i < entries.len() {
                assert(entries[i].0 == k);
            }
        }
        if has_name(entries, k) {
            let i = place_of(entries, k);
            assert(longer[i].0 == k);
        }
        if k == name {
            assert(longer[entries.len() as int].0 == k);
        }
    }
    assert forall|k: Seq<char>| as_map(longer).contains_key(k) implies as_map(longer)[k]
        == as_map(entries).insert(name, value)[k] by {
        let i = place_of(longer, k);
        lemma_as_map_entry(longer, i);
        if i < entries.len() {
            assert(entries[i].0 == k);
            lemma_as_map_entry(entries, i);
        }
    }
    assert(as_map(longer) =~= as_map(entries).insert(name, value));
}

/// A new value at a place changes the map at that place's name only.
pub proof fn lemma_as_map_update<X>(entries: Seq<(Seq<char>, X)>, i: int, value: X)
    requires
        distinct(entries),
        0 <= i < entries.len(),
    ensures
        distinct(entries.update(i, (entries[i].0, value))),
        as_map(entries.update(i, (entries[i].0, value))) == as_map(entries).insert(
            entries[i].0,
            value,
        ),
{
    let name = entries[i].0;
    let changed = entries.update(i, (name, value));
    assert forall|a: int, b: int| 0 <= a < b < changed.len() implies changed[a].0
        != changed[b].0 by {
        assert(changed[a].0 == entries[a].0);
        assert(changed[b].0 == entries[b].0);
    }
    assert forall|k: Seq<char>| as_map(changed).contains_key(k) <==> as_map(entries).insert(
        name,
        value,
    ).contains_key(k) by {
        if has_name(changed, k) {
            let j = place_of(changed, k);
            assert(entries[j].0 == k);
        }
        if has_name(entries, k) {
            let j = place_of(entries, k);
            assert(changed[j].0 == k);
        }
        if k == name {
            assert(changed[i].0 == k);
        }
    }
    assert forall|k: Seq<char>| as_map(changed).contains_key(k) implies as_map(changed)[k]
        == as_map(entries).insert(name, value)[k] by {
        let j = place_of(changed, k);
        lemma_as_map_entry(changed, j);
        if j != i {
            assert(entries[j].0 == k);
            lemma_as_map_entry(entries, j);
        }
    }
    assert(as_map(changed) =~= as_map(entries).insert(name, value));
}

/// A list of distinct names lists a finite map with as many names.
pub proof fn lemma_as_map_len<X>(entries: Seq<(Seq<char>, X)>)
    requires
        distinct(entries),
    ensures
        as_map(entries).dom().finite(),
        as_map(entries).dom().len() == entries.len(),
    decreases entries.len(),
{
    if entries.len() == 0 {
        assert(as_map(entries).dom() =~= Set::<Seq<char>>::empty());
    } else {
        let front = entries.drop_last();
        let last = entries.last();
        assert forall|i: int, j: int| 0 <= i < j < front.len() implies front[i].0
            != front[j].0 by {
            assert(entries[i].0 != entries[j].0);
        }
        if has_name(front, last.0) {
            let i = place_of(front, last.0);
            assert(entries[i].0 != entries[entries.len() - 1].0);
        }
        lemma_as_map_len(front);
        lemma_as_map_push(front, last.0, last.1);
        assert(front.push((last.0, last.1)) =~= entries);
        assert(as_map(entries).dom() =~= as_map(front).dom().insert(last.0));
    }
}

/// `entries` with `value` under `name`: in the place of the value that stood
/// there, or at the end where `name` is new.
pub open spec fn put<X>(entries: Seq<(Seq<char>, X)>, name: Seq<char>, value: X) -> Seq<
    (Seq<char>, X),
> {
    if has_name(entries, name) {
        entries.update(place_of(entries, name), (name, value))
    } else {
        entries.push((name, value))
    }
}

/// `entries` with each entry of `more` put into it, one after the other.
pub open spec fn put_all<X>(entries: Seq<(Seq<char>, X)>, more: Seq<(Seq<char>, X)>) -> Seq<
    (Seq<char>, X),
>
    decreases more.len(),
{
    if more.len() == 0 {
        entries
    } else {
        put(put_all(entries, more.drop_last()), more.last().0, more.last().1)
    }
}

/// Putting a value under a name keeps the names distinct, and gives the map
/// with that value under that name.
pub proof fn lemma_put<X>(entries: Seq<(Seq<char>, X)>, name: Seq<char>, value: X)
    requires
        distinct(entries),
    ensures
        distinct(put(entries, name, value)),
        as_map(put(entries, name, value)) == as_map(entries).insert(name, value),
{
    if has_name(entries, name) {
        lemma_as_map_update(entries, place_of(entries, name), value);
    } else {
        lemma_as_map_push(entries, name, value);
    }
}

/// Putting the entries of one list into another gives the union of the two
/// maps, in which the entries that were put in last stay.
pub proof fn lemma_put_all<X>(entries: Seq<(Seq<char>, X)>, more: Seq<(Seq<char>, X)>)
    requires
        distinct(entries),
        distinct(more),
    ensures
        distinct(put_all(entries, more)),
        as_map(put_all(entries, more)) == as_map(entries).union_prefer_right(as_map(more)),
    decreases more.len(),
{
    if more.len() == 0 {
        assert(as_map(more) =~= Map::<Seq<char>, X>::empty());
        assert(as_map(entries).union_prefer_right(as_map(more)) =~= as_map(entries));
    } else {
        let front = more.drop_last();
        let last = more.last();
        assert forall|i: int, j: int| 0 <= i < j < front.len() implies front[i].0
            != front[j].0 by {
            assert(more[i].0 != more[j].0);
        }
        lemma_put_all(entries, front);
        lemma_put(put_all(entries, front), last.0, last.1);
        if has_name(front, last.0) {
            let i = place_of(front, last.0);
            assert(more[i].0 != more[more.len() - 1].0);
        }
        lemma_as_map_push(front, last.0, last.1);
        assert(front.push((last.0, last.1)) =~= more);
        assert(as_map(entries).union_prefer_right(as_map(front)).insert(last.0, last.1)
            =~= as_map(entries).union_prefer_right(as_map(front).insert(last.0, last.1)));
    }
}

/// A table from names to values. Each name stands once; the order in which
/// the entries stand is that in which their names first came in.
#[derive(Debug, PartialEq)]
pub struct Table<V: DeepView> {
    entries: Vec<(String, V)>,
}

impl<V: DeepView> DeepView for Table<V> {
    type V = Map<Seq<char>, V::V>;

    /// The table as a map from names to the views of the values.
    open spec fn deep_view(&self) -> Map<Seq<char>, V::V> {
        as_map(self.entries())
    }
}

impl<V: DeepView> Table<V> {
    #[verifier::type_invariant]
    spec fn names_stand_once(&self) -> bool {
        distinct(self.entries.deep_view())
    }

    /// The entries in the order in which they stand.
    pub closed spec fn entries(&self) -> Seq<(Seq<char>, V::V)> {
        self.entries.deep_view()
    }

    /// A table without entries.
    pub fn new() -> (r: Self)
        ensures
            r.entries() == Seq::<(Seq<char>, V::V)>::empty(),
            r.deep_view() == Map::<Seq<char>, V::V>::empty(),
    {
        let entries: Vec<(String, V)> = Vec::new();
        assert(entries.deep_view() =~= Seq::<(Seq<char>, V::V)>::empty());
        assert(as_map(entries.deep_view()) =~= Map::<Seq<char>, V::V>::empty());
        Table { entries }
    }

    /// The number of entries, which is the number of names.
    pub fn len(&self) -> (r: usize)
        ensures
            r == self.entries().len(),
            r == self.deep_view().dom().len(),
            self.deep_view().dom().finite(),
            distinct(self.entries()),
    {
        proof {
            use_type_invariant(self);
            lemma_as_map_len(self.entries());
        }
        self.entries.len()
    }

    /// The name of the entry at place `i`.
    pub fn name_at(&self, i: usize) -> (r: &String)
        requires
            i < self.entries().len(),
        ensures
            r@ == self.entries()[i as int].0,
            self.deep_view().contains_key(r@),
    {
        proof {
            use_type_invariant(self);
            lemma_as_map_entry(self.entries(), i as int);
        }
        &self.entries[i].0
    }

    /// The value of the entry at place `i`.
    pub fn value_at(&self, i: usize) -> (r: &V)
        requires
            i < self.entries().len(),
        ensures
            r.deep_view() == self.entries()[i as int].1,
            self.deep_view()[self.entries()[i as int].0] == r.deep_view(),
    {
        proof {
            use_type_invariant(self);
            lemma_as_map_entry(self.entries(), i as int);
        }
        &self.entries[i].1
    }

    /// The place at which `name` stands among `entries`.
    fn place(entries: &Vec<(String, V)>, name: &str) -> (r: Option<usize>)
        ensures
            match r {
                Some(i) => i < entries.len() && entries.deep_view()[i as int].0 == name@,
                None => !has_name(entries.deep_view(), name@),
            },
    {
        let mut i: usize = 0;
        while i < entries.len()
            invariant
                i <= entries.len(),
                forall|j: int| 0 <= j < i ==> (#[trigger] entries.deep_view()[j]).0 != name@,
            decreases entries.len() - i,
        {
            if same(entries[i].0.as_str(), name) {
                return Some(i);
            }
            i += 1;
        }
        None
    }

    /// Tests whether the table has an entry under `name`.
    pub fn contains_key(&self, name: &str) -> (r: bool)
        ensures
            r == self.deep_view().contains_key(name@),
    {
        Self::place(&self.entries, name).is_some()
    }

    /// The value under `name`.
    pub fn get(&self, name: &str) -> (r: Option<&V>)
        ensures
            match r {
                Some(value) => self.deep_view().contains_key(name@) && value.deep_view()
                    == self.deep_view()[name@],
                None => !self.deep_view().contains_key(name@),
            },
    {
        match Self::place(&self.entries, name) {
            Some(i) => {
                proof {
                    use_type_invariant(self);
                    lemma_as_map_entry(self.entries(), i as int);
                }
                Some(&self.entries[i].1)
            },
            None => None,
        }
    }

    /// Puts `value` under `name`. A value that stood there before is replaced,
    /// at its place; a new name goes to the end.
    pub fn insert(&mut self, name: String, value: V)
        ensures
            final(self).entries() == put(old(self).entries(), name@, value.deep_view()),
            final(self).deep_view() == old(self).deep_view().insert(name@, value.deep_view()),
    {
        proof {
            use_type_invariant(&*self);
        }
        let ghost before = self.entries();
        proof {
            lemma_put(before, name@, value.deep_view());
        }
        let mut entries: Vec<(String, V)> = Vec::new();
        core::mem::swap(&mut self.entries, &mut entries);
        match Self::place(&entries, name.as_str()) {
            Some(i) => {
                proof {
                    lemma_as_map_entry(before, i as int);
                    let k = place_of(before, name@);
                    if k < i {
                        assert(before[k].0 != before[i as int].0);
                    } else if i < k {
                        assert(before[i as int].0 != before[k].0);
                    }
                }
                entries.set(i, (name, value));
                assert(entries.deep_view() =~= before.update(
                    i as int,
                    (name@, value.deep_view()),
                ));
            },
            None => {
                entries.push((name, value));
                assert(entries.deep_view() =~= before.push((name@, value.deep_view())));
            },
        }
        self.entries = entries;
    }

    /// Puts every entry of `other` into the table, in the order in which
    /// they stand there. Where a name stands in both, the value of `other`
    /// replaces the one that stood there.
    pub fn extend(&mut self, other: Table<V>)
        ensures
            final(self).entries() == put_all(old(self).entries(), other.entries()),
            final(self).deep_view() == old(self).deep_view().union_prefer_right(
                other.deep_view(),
            ),
    {
        proof {
            use_type_invariant(&*self);
            use_type_invariant(&other);
            lemma_put_all(self.entries(), other.entries());
        }
        let ghost all = other.entries();
        let ghost start = self.entries();
        let ghost n = all.len() as int;
        let mut from = other.entries;
        let mut rest: Vec<(String, V)> = Vec::new();
        while from.len() > 0
            invariant
                n == all.len(),
                from.len() + rest.len() == n,
                from.deep_view() == all.take(from.len() as int),
                forall|j: int| 0 <= j < rest.len() ==> rest.deep_view()[j] == all[n - 1 - j],
            decreases from.len(),
        {
            let ghost m = from.len() as int;
            let ghost turned = rest.deep_view();
            let entry = from.pop().unwrap();
            rest.push(entry);
            proof {
                assert(from.deep_view() =~= all.take(m - 1));
                assert(all.take(m)[m - 1] == all[m - 1]);
                assert(rest.deep_view() =~= turned.push(entry.deep_view()));
            }
        }
        assert(all.take(0) =~= Seq::<(Seq<char>, V::V)>::empty());
        while rest.len() > 0
            invariant
                n == all.len(),
                rest.len() <= n,
                forall|j: int| 0 <= j < rest.len() ==> rest.deep_view()[j] == all[n - 1 - j],
                self.entries() == put_all(start, all.take(n - rest.len())),
            decreases rest.len(),
        {
            let ghost done = n - rest.len();
            let ghost turned = rest.deep_view();
            let (name, value) = rest.pop().unwrap();
            proof {
                assert(turned[turned.len() - 1] == all[done]);
                assert(rest.deep_view() =~= turned.take(turned.len() - 1));
                assert(all.take(done + 1).drop_last() =~= all.take(done));
                assert(all.take(done + 1).last() == all[done]);
            }
            self.insert(name, value);
        }
        assert(all.take(n) =~= all);
    }

    /// The entries, in the order in which they stand.
    pub fn into_entries(self) -> (r: Vec<(String, V)>)
        ensures
            r.deep_view() == self.entries(),
            distinct(r.deep_view()),
            as_map(r.deep_view()) == self.deep_view(),
    {
        proof {
            use_type_invariant(&self);
        }
        self.entries
    }
}

} // verus!
