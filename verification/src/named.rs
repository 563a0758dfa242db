//! Values under names: each name once, in dictionary order.

use vstd::prelude::*;

use crate::kernel::{ascending, ArgRef};
use crate::text::{precedes, precedes_transitive, side_of, Side};

verus! {

/// Some values, each under a name of its own.
#[derive(PartialEq, Eq, Debug)]
pub struct ByName<T> {
    entries: Vec<(String, T)>,
}

/// The names of `entries`, in their order.
pub open spec fn names_of<V>(entries: Seq<(Seq<char>, V)>) -> Seq<Seq<char>> {
    Seq::new(entries.len(), |i: int| entries[i].0)
}

/// What `entries` hold under each name.
pub open spec fn held<V>(entries: Seq<(Seq<char>, V)>) -> Map<Seq<char>, V> {
    Map::new(
        |name: Seq<char>| names_of(entries).contains(name),
        |name: Seq<char>| entries[names_of(entries).index_of(name)].1,
    )
}

impl<T: DeepView> View for ByName<T> {
    type V = Map<Seq<char>, T::V>;

    /// What is held under each name.
    closed spec fn view(&self) -> Map<Seq<char>, T::V> {
        held(self.entries.deep_view())
    }
}

/// Names in strict order are each there once.
proof fn lemma_found_where_it_is<V>(entries: Seq<(Seq<char>, V)>, at: int)
    requires
        ascending(names_of(entries)),
        0 <= at < entries.len(),
    ensures
        held(entries).dom().contains(entries[at].0),
        held(entries)[entries[at].0] == entries[at].1,
{
    let names = names_of(entries);
    let name = entries[at].0;
    assert(names[at] == name);
    assert(names.contains(name));
    let found = names.index_of(name);
    assert(names[found] == name);
    if found != at {
        let (i, j) = if found < at { (found, at) } else { (at, found) };
        assert(precedes(names[i], names[j]));
        lemma_not_before_itself(name);
    }
}

proof fn lemma_not_before_itself(name: Seq<char>)
    ensures
        !precedes(name, name),
    decreases name.len(),
{
    if name.len() > 0 {
        lemma_not_before_itself(name.drop_first());
    }
}

/// A list in strict order that has one entry more, or another one in its place, and is the same
/// otherwise, holds the same otherwise.
proof fn lemma_held_with<V>(
    before: Seq<(Seq<char>, V)>,
    after: Seq<(Seq<char>, V)>,
    name: Seq<char>,
    value: V,
)
    requires
        ascending(names_of(before)),
        ascending(names_of(after)),
        after.contains((name, value)),
        forall|i: int|
            0 <= i < before.len() && (#[trigger] before[i]).0 != name ==> after.contains(before[i]),
        forall|i: int|
            0 <= i < after.len() && (#[trigger] after[i]).0 != name ==> before.contains(after[i]),
    ensures
        held(after) == held(before).insert(name, value),
{
    let old_map = held(before);
    let new_map = held(after);
    let at = choose|k: int| 0 <= k < after.len() && after[k] == (name, value);
    lemma_found_where_it_is(after, at);
    assert forall|other: Seq<char>| other != name implies (#[trigger] new_map.dom().contains(
        other,
    ) <==> old_map.dom().contains(other)) && (new_map.dom().contains(other) ==> new_map[other]
        == old_map[other]) by {
        if new_map.dom().contains(other) {
            let i = choose|i: int|
                0 <= i < names_of(after).len() && names_of(after)[i] == other;
            assert(before.contains(after[i]));
            let k = choose|k: int| 0 <= k < before.len() && before[k] == after[i];
            lemma_found_where_it_is(after, i);
            lemma_found_where_it_is(before, k);
        }
        if old_map.dom().contains(other) {
            let i = choose|i: int|
                0 <= i < names_of(before).len() && names_of(before)[i] == other;
            assert(after.contains(before[i]));
            let k = choose|k: int| 0 <= k < after.len() && after[k] == before[i];
            lemma_found_where_it_is(before, i);
            lemma_found_where_it_is(after, k);
        }
    }
    assert(new_map.dom() =~= old_map.insert(name, value).dom());
    assert(new_map =~= old_map.insert(name, value));
}

/// The names of `entries`, in their order, before the values are looked at.
spec fn keys<T>(entries: Seq<(String, T)>) -> Seq<Seq<char>> {
    Seq::new(entries.len(), |i: int| entries[i].0@)
}

impl<T> ByName<T> {
    #[verifier::type_invariant]
    spec fn sorted(&self) -> bool {
        ascending(keys(self.entries@))
    }
}

impl<T: DeepView> ByName<T> {
    /// Nothing.
    pub fn new() -> (r: Self)
        ensures
            r@ == Map::<Seq<char>, T::V>::empty(),
    {
        let r = ByName { entries: Vec::new() };
        assert(r@ =~= Map::empty());
        r
    }

    /// The values, each under its name, in dictionary order.
    pub fn entries(&self) -> (r: &Vec<(String, T)>)
        ensures
            ascending(names_of(r.deep_view())),
            held(r.deep_view()) == self@,
    {
        proof {
            use_type_invariant(self);
            assert(keys(self.entries@) =~= names_of(self.entries.deep_view()));
        }
        &self.entries
    }

    /// The same, with `value` under `name`, whatever was there before.
    pub fn with(self, name: &str, value: T) -> (r: Self)
        ensures
            r@ == self@.insert(name@, value.deep_view()),
    {
        proof {
            use_type_invariant(&self);
        }
        let mut entries = self.entries;
        let ghost raw = entries@;
        let ghost before = entries.deep_view();
        assert(keys(raw) =~= names_of(before));
        let mut at: usize = 0;
        let mut there = false;
        while at < entries.len()
            invariant_except_break
                !there,
            invariant
                at <= entries.len(),
                raw == entries@,
                before == entries.deep_view(),
                ascending(names_of(before)),
                forall|j: int| 0 <= j < at ==> precedes(#[trigger] names_of(before)[j], name@),
            ensures
                there ==> at < entries.len() && names_of(before)[at as int] == name@,
                !there && at < entries.len() ==> precedes(name@, names_of(before)[at as int]),
            decreases entries.len() - at,
        {
            assert(names_of(before)[at as int] == entries[at as int].0@);
            match side_of(entries[at].0.as_str(), name) {
                Side::Before => {},
                Side::Same => {
                    there = true;
                    break;
                },
                Side::After => {
                    break;
                },
            }
            at += 1;
        }
        let ghost names = names_of(before);
        let ghost entry = (name@, value.deep_view());
        if there {
            entries.set(at, (name.to_owned(), value));
            proof {
                let after = entries.deep_view();
                assert(after =~= before.update(at as int, entry));
                assert(names_of(after) =~= names);
                assert(keys(entries@) =~= names);
                assert(after[at as int] == entry);
                lemma_set(before, after, at as int, entry);
            }
        } else {
            entries.insert(at, (name.to_owned(), value));
            proof {
                let after = entries.deep_view();
                assert(after =~= before.insert(at as int, entry));
                lemma_inserted(before, at as int, entry);
                assert(keys(entries@) =~= names_of(after));
            }
        }
        ByName { entries }
    }
}

proof fn lemma_set<V>(
    before: Seq<(Seq<char>, V)>,
    after: Seq<(Seq<char>, V)>,
    at: int,
    entry: (Seq<char>, V),
)
    requires
        ascending(names_of(before)),
        0 <= at < before.len(),
        before[at].0 == entry.0,
        after == before.update(at, entry),
    ensures
        held(after) == held(before).insert(entry.0, entry.1),
{
    assert(names_of(after) =~= names_of(before));
    assert(after[at] == entry);
    assert forall|i: int| 0 <= i < before.len() && (
    #[trigger] before[i]).0 != entry.0 implies after.contains(before[i]) by {
        assert(after[i] == before[i]);
    }
    assert forall|i: int| 0 <= i < after.len() && (
    #[trigger] after[i]).0 != entry.0 implies before.contains(after[i]) by {
        assert(before[i] == after[i]);
    }
    lemma_held_with(before, after, entry.0, entry.1);
}

proof fn lemma_inserted<V>(before: Seq<(Seq<char>, V)>, at: int, entry: (Seq<char>, V))
    requires
        ascending(names_of(before)),
        0 <= at <= before.len(),
        forall|j: int| 0 <= j < at ==> precedes(#[trigger] names_of(before)[j], entry.0),
        at < before.len() ==> precedes(entry.0, names_of(before)[at]),
    ensures
        ascending(names_of(before.insert(at, entry))),
        held(before.insert(at, entry)) == held(before).insert(entry.0, entry.1),
{
    let after = before.insert(at, entry);
    let old_names = names_of(before);
    let names = names_of(after);
    assert forall|j: int| at <= j < before.len() implies precedes(
        entry.0,
        #[trigger] old_names[j],
    ) by {
        if j > at {
            precedes_transitive(entry.0, old_names[at], old_names[j]);
        }
    }
    assert forall|i: int, j: int| 0 <= i < j < names.len() implies precedes(
        #[trigger] names[i],
        #[trigger] names[j],
    ) by {
        let from = |k: int| if k < at { k } else { k - 1 };
        assert(i != at ==> names[i] == old_names[from(i)]);
        assert(j != at ==> names[j] == old_names[from(j)]);
    }
    assert(after[at] == entry);
    assert forall|i: int| 0 <= i < before.len() && (
    #[trigger] before[i]).0 != entry.0 implies after.contains(before[i]) by {
        if i < at {
            assert(after[i] == before[i]);
        } else {
            assert(after[i + 1] == before[i]);
        }
    }
    assert forall|i: int| 0 <= i < after.len() && (
    #[trigger] after[i]).0 != entry.0 implies before.contains(after[i]) by {
        if i < at {
            assert(before[i] == after[i]);
        } else {
            assert(before[i - 1] == after[i]);
        }
    }
    lemma_held_with(before, after, entry.0, entry.1);
}

impl Clone for ByName<ArgRef> {
    fn clone(&self) -> (r: Self)
        ensures
            r@ == self@,
    {
        proof {
            use_type_invariant(self);
        }
        let mut entries: Vec<(String, ArgRef)> = Vec::new();
        let ghost all = self.entries.deep_view();
        let mut i: usize = 0;
        while i < self.entries.len()
            invariant
                i <= self.entries.len(),
                all == self.entries.deep_view(),
                entries.deep_view() == all.take(i as int),
            decreases self.entries.len() - i,
        {
            let ghost before = entries.deep_view();
            let name = self.entries[i].0.clone();
            let value = self.entries[i].1.clone();
            entries.push((name, value));
            proof {
                assert(entries.deep_view() =~= before.push((name@, value.deep_view())));
                assert(all.take(i + 1) =~= all.take(i as int).push(all[i as int]));
            }
            i += 1;
        }
        proof {
            assert(all.take(i as int) =~= all);
            assert(keys(self.entries@) =~= names_of(all));
            assert(keys(entries@) =~= names_of(entries.deep_view()));
        }
        ByName { entries }
    }
}

impl Clone for ByName<String> {
    fn clone(&self) -> (r: Self)
        ensures
            r@ == self@,
    {
        proof {
            use_type_invariant(self);
        }
        let mut entries: Vec<(String, String)> = Vec::new();
        let ghost all = self.entries.deep_view();
        let mut i: usize = 0;
        while i < self.entries.len()
            invariant
                i <= self.entries.len(),
                all == self.entries.deep_view(),
                entries.deep_view() == all.take(i as int),
            decreases self.entries.len() - i,
        {
            let ghost before = entries.deep_view();
            let name = self.entries[i].0.clone();
            let value = self.entries[i].1.clone();
            entries.push((name, value));
            proof {
                assert(entries.deep_view() =~= before.push((name@, value@)));
                assert(all.take(i + 1) =~= all.take(i as int).push(all[i as int]));
            }
            i += 1;
        }
        proof {
            assert(all.take(i as int) =~= all);
            assert(keys(self.entries@) =~= names_of(all));
            assert(keys(entries@) =~= names_of(entries.deep_view()));
        }
        ByName { entries }
    }
}

// ---------------------------------------------------------------------------
// Laws.
// ---------------------------------------------------------------------------

/// What is put under a name is there afterwards, whatever was before, and every other name has
/// what it had; at first no name has anything.
pub proof fn law_a_name_holds_what_was_put_there_last<T: DeepView>(
    fresh: ByName<T>,
    before: ByName<T>,
    name: &str,
    value: T,
    after: ByName<T>,
    other: Seq<char>,
)
    requires
        call_ensures(ByName::<T>::new, (), fresh),
        call_ensures(ByName::<T>::with, (before, name, value), after),
    ensures
        !fresh@.contains_key(other),
        after@.contains_key(name@),
        after@[name@] == value.deep_view(),
        other != name@ ==> (after@.contains_key(other) <==> before@.contains_key(other)),
        other != name@ && before@.contains_key(other) ==> after@[other] == before@[other],
{
}

/// What is held is read back: each name once, in dictionary order, with what it has.
pub proof fn law_what_is_held_is_read_back<T: DeepView>(
    values: &ByName<T>,
    r: &Vec<(String, T)>,
    name: Seq<char>,
)
    requires
        call_ensures(ByName::<T>::entries, (values,), r),
    ensures
        values@.contains_key(name) <==> exists|i: int|
            0 <= i < r.deep_view().len() && (#[trigger] r.deep_view()[i]).0 == name,
        forall|i: int|
            0 <= i < r.deep_view().len() ==> values@[(#[trigger] r.deep_view()[i]).0]
                == r.deep_view()[i].1,
        forall|i: int, j: int|
            0 <= i < j < r.deep_view().len() ==> precedes(
                (#[trigger] r.deep_view()[i]).0,
                (#[trigger] r.deep_view()[j]).0,
            ),
{
    let entries = r.deep_view();
    assert forall|i: int| 0 <= i < entries.len() implies values@[(#[trigger] entries[i]).0]
        == entries[i].1 by {
        lemma_found_where_it_is(entries, i);
    }
    assert forall|i: int, j: int| 0 <= i < j < entries.len() implies precedes(
        (#[trigger] entries[i]).0,
        (#[trigger] entries[j]).0,
    ) by {
        assert(precedes(names_of(entries)[i], names_of(entries)[j]));
    }
    if values@.contains_key(name) {
        let i = choose|i: int| 0 <= i < names_of(entries).len() && names_of(entries)[i] == name;
        assert(entries[i].0 == name);
    }
    if exists|i: int| 0 <= i < entries.len() && (#[trigger] entries[i]).0 == name {
        let i = choose|i: int| 0 <= i < entries.len() && (#[trigger] entries[i]).0 == name;
        lemma_found_where_it_is(entries, i);
    }
}

} // verus!
