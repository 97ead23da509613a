//! Tables keyed by name: what the schema documents use wherever an object
//! lists its members. A table keeps its entries in the order in which their
//! names were first inserted, and holds each name at most once.

use vstd::prelude::*;

verus! {

/// No two entries share a name.
pub open spec fn distinct_names<V>(entries: Seq<(Seq<char>, V)>) -> bool {
    forall|i: int, j: int|
        0 <= i < entries.len() && 0 <= j < entries.len() && i != j ==> #[trigger] entries[i].0
            != #[trigger] entries[j].0
}

/// Some entry has the name `name`.
pub open spec fn has_name<V>(entries: Seq<(Seq<char>, V)>, name: Seq<char>) -> bool {
    exists|i: int| 0 <= i < entries.len() && #[trigger] entries[i].0 == name
}

/// The entry `(name, value)` is among `entries`.
pub open spec fn has_entry<V>(entries: Seq<(Seq<char>, V)>, name: Seq<char>, value: V) -> bool {
    exists|i: int| 0 <= i < entries.len() && #[trigger] entries[i] == (name, value)
}

/// The position of an entry named `name`, where there is one.
pub open spec fn position_of<V>(entries: Seq<(Seq<char>, V)>, name: Seq<char>) -> int {
    choose|i: int| 0 <= i < entries.len() && #[trigger] entries[i].0 == name
}

/// `entries` after `value` has been stored under `name`: in the place of the
/// entry that had the name, or at the end where there was none.
pub open spec fn put<V>(entries: Seq<(Seq<char>, V)>, name: Seq<char>, value: V) -> Seq<
    (Seq<char>, V),
> {
    if has_name(entries, name) {
        entries.update(position_of(entries, name), (name, value))
    } else {
        entries.push((name, value))
    }
}

/// How many entries have the name `name`.
pub open spec fn occurrences<V>(entries: Seq<(Seq<char>, V)>, name: Seq<char>) -> nat
    decreases entries.len(),
{
    if entries.len() == 0 {
        0
    } else {
        occurrences(entries.drop_last(), name) + if entries.last().0 == name {
            1nat
        } else {
            0nat
        }
    }
}

/// Among distinct names, a name that occurs occurs once.
pub proof fn lemma_occurs_once<V>(entries: Seq<(Seq<char>, V)>, name: Seq<char>)
    requires
        distinct_names(entries),
    ensures
        occurrences(entries, name) == if has_name(entries, name) {
            1nat
        } else {
            0nat
        },
    decreases entries.len(),
{
    if entries.len() > 0 {
        let earlier = entries.drop_last();
        let last = entries.len() - 1;
        lemma_occurs_once(earlier, name);
        if has_name(earlier, name) {
            let k = choose|k: int| 0 <= k < earlier.len() && #[trigger] earlier[k].0 == name;
            assert(entries[k].0 == name);
        } else if has_name(entries, name) {
            let k = choose|k: int| 0 <= k < entries.len() && #[trigger] entries[k].0 == name;
            if k < last {
                assert(earlier[k].0 == name);
            }
        }
    }
}

/// What is stored under a name is found under it, and storing it leaves the
/// entries of other names in place.
pub proof fn lemma_put_entry<V>(
    entries: Seq<(Seq<char>, V)>,
    name: Seq<char>,
    value: V,
    other: Seq<char>,
    kept: V,
)
    ensures
        has_entry(put(entries, name, value), name, value),
        other != name ==> (has_entry(put(entries, name, value), other, kept) <==> has_entry(
            entries,
            other,
            kept,
        )),
{
    let after = put(entries, name, value);
    if has_name(entries, name) {
        let at = position_of(entries, name);
        assert(after[at] == (name, value));
    } else {
        assert(after[entries.len() as int] == (name, value));
    }
    if other != name && has_entry(entries, other, kept) {
        let k = choose|k: int| 0 <= k < entries.len() && #[trigger] entries[k] == (other, kept);
        assert(after[k] == (other, kept));
    }
    if other != name && has_entry(after, other, kept) {
        let k = choose|k: int| 0 <= k < after.len() && #[trigger] after[k] == (other, kept);
        assert(entries[k] == (other, kept));
    }
}

/// Storing a value and then taking models is storing the value's model among
/// the models.
pub proof fn lemma_put_models<V: View>(entries: Seq<(Seq<char>, V)>, name: Seq<char>, value: V)
    requires
        distinct_names(entries),
    ensures
        put(entries, name, value).map_values(|e: (Seq<char>, V)| (e.0, e.1@)) == put(
            entries.map_values(|e: (Seq<char>, V)| (e.0, e.1@)),
            name,
            value@,
        ),
{
    let models = entries.map_values(|e: (Seq<char>, V)| (e.0, e.1@));
    if has_name(entries, name) {
        let at = position_of(entries, name);
        assert(models[at].0 == name);
        assert(position_of(models, name) == at);
    }
}

/// A table from names to values.
#[derive(Debug)]
pub struct NameMap<V> {
    entries: Vec<(String, V)>,
}

impl<V> NameMap<V> {
    /// The entries, each a name with its value, in order of first insertion.
    pub closed spec fn entries(&self) -> Seq<(Seq<char>, V)> {
        self.entries@.map_values(|e: (String, V)| (e.0@, e.1))
    }

    #[verifier::type_invariant]
    spec fn well_formed(&self) -> bool {
        distinct_names(self.entries())
    }

    /// Whether the table has an entry for `name`.
    pub open spec fn has(&self, name: Seq<char>) -> bool {
        has_name(self.entries(), name)
    }

    /// The empty table.
    pub fn new() -> (table: Self)
        ensures
            table.entries() == Seq::<(Seq<char>, V)>::empty(),
    {
        NameMap { entries: Vec::new() }
    }

    /// The number of entries. No name occurs twice among them.
    pub fn len(&self) -> (n: usize)
        ensures
            n == self.entries().len(),
            distinct_names(self.entries()),
    {
        proof {
            use_type_invariant(self);
        }
        self.entries.len()
    }

    /// The name of the entry at position `i`.
    pub fn name_at(&self, i: usize) -> (name: &String)
        requires
            i < self.entries().len(),
        ensures
            name@ == self.entries()[i as int].0,
    {
        &self.entries[i].0
    }

    /// The value of the entry at position `i`.
    pub fn value_at(&self, i: usize) -> (value: &V)
        requires
            i < self.entries().len(),
        ensures
            *value == self.entries()[i as int].1,
    {
        &self.entries[i].1
    }

    /// The position of the entry for `name`, if there is one.
    pub fn position(&self, name: &str) -> (found: Option<usize>)
        ensures
            match found {
                Some(i) => i < self.entries().len() && self.entries()[i as int].0 == name@,
                None => !self.has(name@),
            },
    {
        let key = String::from_str(name);
        let mut i: usize = 0;
        while i < self.entries.len()
            invariant
                i <= self.entries.len(),
                key@ == name@,
                forall|k: int| 0 <= k < i ==> (#[trigger] self.entries()[k]).0 != name@,
            decreases self.entries.len() - i,
        {
            if self.entries[i].0 == key {
                return Some(i);
            }
            i += 1;
        }
        None
    }

    /// Whether the table has an entry for `name`.
    pub fn contains_key(&self, name: &str) -> (found: bool)
        ensures
            found == self.has(name@),
    {
        self.position(name).is_some()
    }

    /// The value stored under `name`, if there is one.
    pub fn get(&self, name: &str) -> (found: Option<&V>)
        ensures
            match found {
                Some(value) => has_entry(self.entries(), name@, *value),
                None => !self.has(name@),
            },
    {
        match self.position(name) {
            Some(i) => Some(&self.entries[i].1),
            None => None,
        }
    }

    /// Stores `value` under `name`. An entry that already has that name keeps
    /// its position and gets the new value; otherwise the entry is added at the
    /// end.
    pub fn insert(&mut self, name: String, value: V)
        ensures
            final(self).entries() == put(old(self).entries(), name@, value),
            distinct_names(old(self).entries()),
            distinct_names(final(self).entries()),
    {
        proof {
            use_type_invariant(&*self);
        }
        let found = self.position(name.as_str());
        let ghost before = self.entries();
        let mut entries: Vec<(String, V)> = Vec::new();
        core::mem::swap(&mut self.entries, &mut entries);
        match found {
            Some(i) => {
                entries.set(i, (name, value));
            },
            None => {
                entries.push((name, value));
            },
        }
        assert(entries@.map_values(|e: (String, V)| (e.0@, e.1)) == put(before, name@, value));
        self.entries = entries;
    }
}

impl<V: View> NameMap<V> {
    /// The entries, each a name with the model of its value.
    pub open spec fn models(&self) -> Seq<(Seq<char>, V::V)> {
        self.entries().map_values(|e: (Seq<char>, V)| (e.0, e.1@))
    }

    /// Stores `value` under `name`, as `insert` does; the contract speaks of
    /// the models of the values.
    pub fn store(&mut self, name: String, value: V)
        ensures
            final(self).models() == put(old(self).models(), name@, value@),
            distinct_names(old(self).models()),
            distinct_names(final(self).models()),
    {
        let ghost before = self.entries();
        self.insert(name, value);
        proof {
            lemma_put_models(before, name@, value);
        }
    }

    /// Whether the table has an entry for `name`; the contract speaks of the
    /// models of the values.
    pub fn knows(&self, name: &str) -> (found: bool)
        ensures
            found == has_name(self.models(), name@),
            distinct_names(self.models()),
    {
        proof {
            use_type_invariant(self);
        }
        let found = self.contains_key(name);
        proof {
            let entries = self.entries();
            let models = self.models();
            if has_name(entries, name@) {
                let k = choose|k: int| 0 <= k < entries.len() && #[trigger] entries[k].0 == name@;
                assert(models[k].0 == name@);
            }
        }
        found
    }
}

impl<V: View> View for NameMap<V> {
    type V = Seq<(Seq<char>, V::V)>;

    open spec fn view(&self) -> Seq<(Seq<char>, V::V)> {
        self.models()
    }
}

} // verus!
