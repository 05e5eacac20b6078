//! An insertion-ordered map from dependency names to specifications.

use crate::models::dependency::DependencySpec;
use vstd::prelude::*;

verus! {

/// The names of a list of entries.
pub open spec fn entry_names(entries: Seq<(String, DependencySpec)>) -> Seq<Seq<char>> {
    entries.map_values(|e: (String, DependencySpec)| e.0@)
}

/// No name occurs twice.
pub open spec fn names_distinct(entries: Seq<(String, DependencySpec)>) -> bool {
    forall|i: int, j: int|
        0 <= i < j < entries.len() ==> entries[i].0@ != entries[j].0@
}

/// The position of `name` among the entries.
pub open spec fn position_of(entries: Seq<(String, DependencySpec)>, name: Seq<char>) -> Option<int> {
    if exists|i: int| 0 <= i < entries.len() && entries[i].0@ == name {
        Some(choose|i: int| 0 <= i < entries.len() && entries[i].0@ == name)
    } else {
        None
    }
}

/// The entries as a map from names to specifications.
pub open spec fn entries_map(entries: Seq<(String, DependencySpec)>) -> Map<Seq<char>, DependencySpec> {
    Map::new(
        |k: Seq<char>| exists|i: int| 0 <= i < entries.len() && entries[i].0@ == k,
        |k: Seq<char>| entries[position_of(entries, k)->0].1,
    )
}

/// With distinct names, the map holds each entry's specification under its name.
pub proof fn lemma_entries_map_at(entries: Seq<(String, DependencySpec)>, i: int)
    requires
        names_distinct(entries),
        0 <= i < entries.len(),
    ensures
        entries_map(entries).dom().contains(entries[i].0@),
        entries_map(entries)[entries[i].0@] == entries[i].1,
{
    let k = entries[i].0@;
    let p = position_of(entries, k)->0;
    assert(0 <= p < entries.len() && entries[p].0@ == k);
    if p != i {
        if p < i {
            assert(entries[p].0@ != entries[i].0@);
        } else {
            assert(entries[i].0@ != entries[p].0@);
        }
    }
}

pub proof fn lemma_entries_map_update(
    before: Seq<(String, DependencySpec)>,
    i: int,
    name: String,
    spec: DependencySpec,
)
    requires
        names_distinct(before),
        0 <= i < before.len(),
        before[i].0@ == name@,
    ensures
        names_distinct(before.update(i, (name, spec))),
        entries_map(before.update(i, (name, spec))) == entries_map(before).insert(name@, spec),
{
    let after = before.update(i, (name, spec));
    assert(names_distinct(after)) by {
        assert forall|a: int, b: int| 0 <= a < b < after.len() implies after[a].0@ != after[b].0@ by {
            assert(after[a].0@ == before[a].0@);
            assert(after[b].0@ == before[b].0@);
        }
    }
    let m1 = entries_map(after);
    let m2 = entries_map(before).insert(name@, spec);
    assert forall|k: Seq<char>| m1.dom().contains(k) <==> m2.dom().contains(k) by {
        if m1.dom().contains(k) {
            let j = choose|j: int| 0 <= j < after.len() && after[j].0@ == k;
            assert(before[j].0@ == k);
        }
        if m2.dom().contains(k) {
            if k == name@ {
                assert(after[i].0@ == k);
            } else {
                let j = choose|j: int| 0 <= j < before.len() && before[j].0@ == k;
                assert(after[j].0@ == k);
            }
        }
    }
    assert forall|k: Seq<char>| #[trigger] m1.dom().contains(k) implies m1[k] == m2[k] by {
        let j = choose|j: int| 0 <= j < after.len() && after[j].0@ == k;
        lemma_entries_map_at(after, j);
        if j != i {
            lemma_entries_map_at(before, j);
        }
    }
    assert(m1 =~= m2);
}

pub proof fn lemma_entries_map_push(before: Seq<(String, DependencySpec)>, name: String, spec: DependencySpec)
    requires
        names_distinct(before),
        forall|j: int| 0 <= j < before.len() ==> before[j].0@ != name@,
    ensures
        names_distinct(before.push((name, spec))),
        entries_map(before.push((name, spec))) == entries_map(before).insert(name@, spec),
{
    let after = before.push((name, spec));
    assert(names_distinct(after)) by {
        assert forall|a: int, b: int| 0 <= a < b < after.len() implies after[a].0@ != after[b].0@ by {
            assert(after[a].0@ == before[a].0@);
        }
    }
    let m1 = entries_map(after);
    let m2 = entries_map(before).insert(name@, spec);
    assert forall|k: Seq<char>| m1.dom().contains(k) <==> m2.dom().contains(k) by {
        if m1.dom().contains(k) {
            let j = choose|j: int| 0 <= j < after.len() && after[j].0@ == k;
            if j < before.len() {
                assert(before[j].0@ == k);
            }
        }
        if m2.dom().contains(k) {
            if k == name@ {
                assert(after[before.len() as int].0@ == k);
            } else {
                let j = choose|j: int| 0 <= j < before.len() && before[j].0@ == k;
                assert(after[j].0@ == k);
            }
        }
    }
    assert forall|k: Seq<char>| #[trigger] m1.dom().contains(k) implies m1[k] == m2[k] by {
        let j = choose|j: int| 0 <= j < after.len() && after[j].0@ == k;
        lemma_entries_map_at(after, j);
        if j < before.len() {
            lemma_entries_map_at(before, j);
        }
    }
    assert(m1 =~= m2);
}

/// The position of `name` in a list of entries.
fn find_in(entries: &Vec<(String, DependencySpec)>, name: &str) -> (r: Option<usize>)
    ensures
        match r {
            Some(i) => i < entries@.len() && entries@[i as int].0@ == name@,
            None => forall|i: int| 0 <= i < entries@.len() ==> entries@[i].0@ != name@,
        },
{
    let mut i: usize = 0;
    while i < entries.len()
        invariant
            i <= entries@.len(),
            forall|j: int| 0 <= j < i ==> entries@[j].0@ != name@,
        decreases entries@.len() - i,
    {
        if crate::text::eq_str(entries[i].0.as_str(), name) {
            return Some(i);
        }
        i = i + 1;
    }
    None
}

/// The entries after inserting `e`: the entry of its name replaced in place,
/// or `e` added after the others.
pub open spec fn insert_entry(
    es: Seq<(String, DependencySpec)>,
    e: (String, DependencySpec),
) -> Seq<(String, DependencySpec)> {
    if exists|i: int| 0 <= i < es.len() && es[i].0@ == e.0@ {
        es.update(choose|i: int| 0 <= i < es.len() && es[i].0@ == e.0@, e)
    } else {
        es.push(e)
    }
}

/// With distinct names, the entry of a name is the only one with it.
proof fn lemma_unique_position(es: Seq<(String, DependencySpec)>, i: int, name: Seq<char>)
    requires
        names_distinct(es),
        0 <= i < es.len(),
        es[i].0@ == name,
    ensures
        (choose|j: int| 0 <= j < es.len() && es[j].0@ == name) == i,
{
    let j = choose|j: int| 0 <= j < es.len() && es[j].0@ == name;
    assert(0 <= j < es.len() && es[j].0@ == name);
    if j != i {
        if j < i {
            assert(es[j].0@ != es[i].0@);
        } else {
            assert(es[i].0@ != es[j].0@);
        }
    }
}

/// A dependency table: each name at most once, kept in the order in which the
/// names were first inserted.
#[derive(Debug)]
pub struct DependencyMap {
    entries: Vec<(String, DependencySpec)>,
}

impl View for DependencyMap {
    type V = Seq<(String, DependencySpec)>;

    open spec fn view(&self) -> Seq<(String, DependencySpec)> {
        self.spec_entries()
    }
}

impl DependencyMap {
    /// The entries, in insertion order.
    pub closed spec fn spec_entries(&self) -> Seq<(String, DependencySpec)> {
        self.entries@
    }

    #[verifier::type_invariant]
    spec fn inv(self) -> bool {
        names_distinct(self.entries@)
    }

    /// The table as a map from names to specifications.
    pub open spec fn as_map(&self) -> Map<Seq<char>, DependencySpec> {
        entries_map(self@)
    }

    /// An empty table.
    pub fn new() -> (m: Self)
        ensures
            m@ == Seq::<(String, DependencySpec)>::empty(),
    {
        DependencyMap { entries: Vec::new() }
    }

    /// The number of entries.
    pub fn len(&self) -> (n: usize)
        ensures
            n == self@.len(),
            names_distinct(self@),
    {
        proof {
            use_type_invariant(self);
        }
        self.entries.len()
    }

    /// The `i`-th entry in insertion order.
    pub fn entry(&self, i: usize) -> (r: (&String, &DependencySpec))
        requires
            i < self@.len(),
        ensures
            *r.0 == self@[i as int].0,
            *r.1 == self@[i as int].1,
    {
        let e = &self.entries[i];
        (&e.0, &e.1)
    }

    /// The position of `name`, if it is present.
    pub fn find(&self, name: &str) -> (r: Option<usize>)
        ensures
            match r {
                Some(i) => i < self@.len() && self@[i as int].0@ == name@,
                None => forall|i: int| 0 <= i < self@.len() ==> self@[i].0@ != name@,
            },
    {
        find_in(&self.entries, name)
    }

    /// The specification stored under `name`.
    pub fn get(&self, name: &str) -> (r: Option<&DependencySpec>)
        ensures
            match r {
                Some(v) => self.as_map().dom().contains(name@) && *v == self.as_map()[name@],
                None => !self.as_map().dom().contains(name@),
            },
    {
        proof {
            use_type_invariant(self);
        }
        match self.find(name) {
            Some(i) => {
                proof {
                    lemma_entries_map_at(self@, i as int);
                }
                Some(&self.entries[i].1)
            },
            None => None,
        }
    }

    /// Stores `spec` under `name`, replacing and returning what was there; a
    /// new name goes to the end.
    pub fn insert(&mut self, name: String, spec: DependencySpec) -> (r: Option<DependencySpec>)
        ensures
            match r {
                Some(old_spec) => exists|i: int|
                    0 <= i < old(self)@.len() && old(self)@[i].0@ == name@ && old(self)@[i].1
                        == old_spec && final(self)@ == old(self)@.update(i, (name, spec)),
                None => (forall|i: int|
                    0 <= i < old(self)@.len() ==> old(self)@[i].0@ != name@) && final(self)@ == old(
                    self,
                )@.push((name, spec)),
            },
            final(self).as_map() == old(self).as_map().insert(name@, spec),
            final(self)@ == insert_entry(old(self)@, (name, spec)),
    {
        proof {
            use_type_invariant(&*self);
        }
        let ghost before = self@;
        let mut entries: Vec<(String, DependencySpec)> = Vec::new();
        std::mem::swap(&mut entries, &mut self.entries);
        match find_in(&entries, name.as_str()) {
            Some(i) => {
                proof {
                    lemma_entries_map_update(before, i as int, name, spec);
                    lemma_unique_position(before, i as int, name@);
                }
                let old_entry = entries.remove(i);
                entries.insert(i, (name, spec));
                assert(entries@ =~= before.update(i as int, (name, spec)));
                self.entries = entries;
                Some(old_entry.1)
            },
            None => {
                proof {
                    lemma_entries_map_push(before, name, spec);
                }
                entries.push((name, spec));
                self.entries = entries;
                None
            },
        }
    }

    /// A copy with the same entries.
    pub fn duplicate(&self) -> (r: Self)
        ensures
            r@ == self@,
    {
        proof {
            use_type_invariant(self);
        }
        let mut entries: Vec<(String, DependencySpec)> = Vec::new();
        let mut i: usize = 0;
        while i < self.entries.len()
            invariant
                i <= self.entries@.len(),
                self@ == self.entries@,
                entries@ == self@.subrange(0, i as int),
            decreases self.entries@.len() - i,
        {
            let e = &self.entries[i];
            entries.push((e.0.clone(), e.1.duplicate()));
            assert(entries@ =~= self@.subrange(0, i + 1));
            i = i + 1;
        }
        assert(entries@ =~= self@);
        DependencyMap { entries }
    }

}

} // verus!
