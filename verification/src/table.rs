//! Values under names, in the order in which the names came up.

use vstd::prelude::*;
use vstd::string::*;
use crate::text::same;

verus! {

/// `i` is the first entry under `name`.
pub open spec fn is_entry_at<V>(entries: Seq<(Seq<char>, V)>, name: Seq<char>, i: int) -> bool {
    &&& 0 <= i < entries.len()
    &&& entries[i].0 == name
    &&& forall|j: int| 0 <= j < i ==> (#[trigger] entries[j]).0 != name
}

/// No name occurs twice.
pub open spec fn distinct<V>(entries: Seq<(Seq<char>, V)>) -> bool {
    forall|i: int, j: int|
        0 <= i < j < entries.len() ==> (#[trigger] entries[i]).0 != (#[trigger] entries[j]).0
}

/// What stands under `name`.
pub open spec fn lookup<V>(entries: Seq<(Seq<char>, V)>, name: Seq<char>) -> Option<V> {
    if exists|i: int| is_entry_at(entries, name, i) {
        Some(entries[choose|i: int| is_entry_at(entries, name, i)].1)
    } else {
        None
    }
}

/// `entries` with `value` under `name`: in the place of what stood there, else at
/// the end.
pub open spec fn bound<V>(entries: Seq<(Seq<char>, V)>, name: Seq<char>, value: V) -> Seq<
    (Seq<char>, V),
> {
    if exists|i: int| is_entry_at(entries, name, i) {
        entries.update(choose|i: int| is_entry_at(entries, name, i), (name, value))
    } else {
        entries.push((name, value))
    }
}

/// Values under names. What [`Table::insert`] puts there leaves no name twice.
pub struct Table<V> {
    entries: Vec<(String, V)>,
}

impl<V: View> View for Table<V> {
    type V = Seq<(Seq<char>, V::V)>;

    closed spec fn view(&self) -> Seq<(Seq<char>, V::V)> {
        Seq::new(self.entries@.len(), |i: int| (self.entries@[i].0@, self.entries@[i].1@))
    }
}

impl<V: View> Table<V> {
    /// A table without entries.
    pub fn new() -> (res: Self)
        ensures
            res@ == Seq::<(Seq<char>, V::V)>::empty(),
            distinct(res@),
    {
        let res = Table { entries: Vec::new() };
        assert(res@ =~= Seq::<(Seq<char>, V::V)>::empty());
        res
    }

    /// How many entries there are.
    pub fn len(&self) -> (res: usize)
        ensures
            res == self@.len(),
    {
        self.entries.len()
    }

    /// The name of an entry.
    pub fn name(&self, i: usize) -> (res: &String)
        requires
            i < self@.len(),
        ensures
            res@ == self@[i as int].0,
    {
        &self.entries[i].0
    }

    /// The value of an entry.
    pub fn value(&self, i: usize) -> (res: &V)
        requires
            i < self@.len(),
        ensures
            res@ == self@[i as int].1,
    {
        &self.entries[i].1
    }

    /// Puts an entry at the end.
    pub(crate) fn append(&mut self, name: String, value: V)
        ensures
            final(self)@ == old(self)@.push((name@, value@)),
    {
        let ghost before = self@;
        let ghost entry = (name@, value@);
        self.entries.push((name, value));
        assert(self@ =~= before.push(entry));
    }

    /// Puts a value under a name, in the place of what stood there.
    pub fn insert(&mut self, name: String, value: V)
        ensures
            final(self)@ == bound(old(self)@, name@, value@),
            distinct(old(self)@) ==> distinct(final(self)@),
    {
        let n: usize = self.entries.len();
        let ghost before = self@;
        let mut i: usize = 0;
        while i < n && !same(self.entries[i].0.as_str(), name.as_str())
            invariant
                i <= n,
                n == self.entries@.len(),
                self@ == before,
                forall|j: int| 0 <= j < i ==> (#[trigger] before[j]).0 != name@,
            decreases n - i,
        {
            assert(before[i as int].0 == self.entries@[i as int].0@);
            i = i + 1;
        }
        let ghost entry = (name@, value@);
        if i < n {
            assert(before[i as int].0 == name@);
            assert(is_entry_at(before, name@, i as int));
            assert forall|p: int| is_entry_at(before, name@, p) implies p == i by {}
            self.entries.set(i, (name, value));
            assert(self@ =~= before.update(i as int, entry));
        } else {
            self.entries.push((name, value));
            assert(self@ =~= before.push(entry));
        }
    }
}

/// What is bound under a name is found there; under every other name stands what
/// stood there before.
pub proof fn law_bound_lookup<V>(
    entries: Seq<(Seq<char>, V)>,
    name: Seq<char>,
    value: V,
    other: Seq<char>,
)
    ensures
        lookup(bound(entries, name, value), name) == Some(value),
        other != name ==> lookup(bound(entries, name, value), other) == lookup(entries, other),
{
    let after = bound(entries, name, value);
    if exists|i: int| is_entry_at(entries, name, i) {
        let i = choose|i: int| is_entry_at(entries, name, i);
        assert(is_entry_at(after, name, i));
    } else {
        let i = entries.len() as int;
        assert forall|j: int| 0 <= j < i implies (#[trigger] entries[j]).0 != name by {
            if entries[j].0 == name {
                lemma_entry_exists(entries, name, j);
            }
        }
        assert(is_entry_at(after, name, i));
    }
    let found = choose|i: int| is_entry_at(after, name, i);
    assert(is_entry_at(after, name, found));
    if other != name {
        assert forall|p: int| is_entry_at(entries, other, p) implies is_entry_at(after, other, p) by {}
        assert forall|p: int| is_entry_at(after, other, p) implies is_entry_at(entries, other, p) by {
            assert forall|j: int| 0 <= j < p implies (#[trigger] entries[j]).0 != other by {
                assert(after[j].0 != other);
            }
        }
    }
}

/// Binding a name leaves no name twice.
pub proof fn law_bound_distinct<V>(entries: Seq<(Seq<char>, V)>, name: Seq<char>, value: V)
    requires
        distinct(entries),
    ensures
        distinct(bound(entries, name, value)),
{
    if !(exists|i: int| is_entry_at(entries, name, i)) {
        assert forall|j: int| 0 <= j < entries.len() implies (#[trigger] entries[j]).0 != name by {
            if entries[j].0 == name {
                lemma_entry_exists(entries, name, j);
            }
        }
    }
}

/// Where an entry has a name, there is a first entry that has it.
proof fn lemma_entry_exists<V>(entries: Seq<(Seq<char>, V)>, name: Seq<char>, j: int)
    requires
        0 <= j < entries.len(),
        entries[j].0 == name,
    ensures
        exists|i: int| is_entry_at(entries, name, i),
    decreases j,
{
    if exists|k: int| 0 <= k < j && (#[trigger] entries[k]).0 == name {
        let k = choose|k: int| 0 <= k < j && (#[trigger] entries[k]).0 == name;
        lemma_entry_exists(entries, name, k);
    } else {
        assert(is_entry_at(entries, name, j));
    }
}

/// Binding a name adds the entry, or puts it in the place of the one of that name: every
/// entry of another name stays, and no other entry comes.
pub proof fn law_bound_entries<V>(
    entries: Seq<(Seq<char>, V)>,
    name: Seq<char>,
    value: V,
    entry: (Seq<char>, V),
)
    requires
        distinct(entries),
    ensures
        bound(entries, name, value).contains(entry) <==> entry == (name, value) || entry.0 != name
            && entries.contains(entry),
        bound(entries, name, value).len() == entries.len() + if lookup(entries, name) is Some {
            0int
        } else {
            1
        },
{
    let after = bound(entries, name, value);
    law_bound_distinct(entries, name, value);
    if exists|i: int| is_entry_at(entries, name, i) {
        let i = choose|i: int| is_entry_at(entries, name, i);
        assert(after[i] == (name, value));
        assert forall|k: int| 0 <= k < entries.len() && k != i implies after[k] == #[trigger] entries[k]
            && entries[k].0 != name by {
            assert(after[k] == entries[k]);
        }
        if after.contains(entry) {
            let k = choose|k: int| 0 <= k < after.len() && after[k] == entry;
            if k != i {
                assert(entries[k] == entry);
            }
        }
        if entry.0 != name && entries.contains(entry) {
            let k = choose|k: int| 0 <= k < entries.len() && entries[k] == entry;
            assert(after[k] == entry);
        }
    } else {
        assert(after[entries.len() as int] == (name, value));
        assert forall|k: int| 0 <= k < entries.len() implies after[k] == #[trigger] entries[k]
            && entries[k].0 != name by {
            if entries[k].0 == name {
                lemma_entry_exists(entries, name, k);
            }
        }
        if after.contains(entry) {
            let k = choose|k: int| 0 <= k < after.len() && after[k] == entry;
            if k < entries.len() {
                assert(entries[k] == entry);
            }
        }
        if entries.contains(entry) {
            let k = choose|k: int| 0 <= k < entries.len() && entries[k] == entry;
            assert(after[k] == entry);
        }
    }
}

/// What is looked up is what an entry of that name holds, and something is found wherever
/// there is such an entry.
pub proof fn law_lookup_finds_entry<V>(entries: Seq<(Seq<char>, V)>, i: int)
    requires
        distinct(entries),
        0 <= i < entries.len(),
    ensures
        lookup(entries, entries[i].0) == Some(entries[i].1),
{
    lemma_entry_exists(entries, entries[i].0, i);
    let found = choose|k: int| is_entry_at(entries, entries[i].0, k);
    assert(is_entry_at(entries, entries[i].0, found));
    if found < i {
        assert(entries[found].0 != entries[i].0);
    }
}

} // verus!
