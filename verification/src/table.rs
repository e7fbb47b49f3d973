//! Tables of named components.

use vstd::prelude::*;
use indexmap::IndexMap;
use crate::reference::{RefOr, RefOrView};

verus! {

#[verifier::external_type_specification]
#[verifier::external_body]
#[verifier::reject_recursive_types(K)]
#[verifier::reject_recursive_types(V)]
#[verifier::reject_recursive_types(S)]
pub struct ExIndexMap<K, V, S>(IndexMap<K, V, S>);

/// What an index holds: for each name in it, the position stored under it.
pub uninterp spec fn index_entries(index: IndexMap<String, usize>) -> Map<Seq<char>, usize>;

/// `IndexMap::new`: a new map holds nothing.
#[verifier::external_body]
fn index_new() -> (fresh: IndexMap<String, usize>)
    ensures
        index_entries(fresh).dom() == Set::<Seq<char>>::empty(),
{
    IndexMap::new()
}

/// `IndexMap::insert`: afterwards the key maps to the value, whether or not
/// it was present before, and every other key maps to what it did.
#[verifier::external_body]
fn index_insert(index: &mut IndexMap<String, usize>, key: String, value: usize)
    ensures
        index_entries(*final(index)) == index_entries(*old(index)).insert(key@, value),
{
    index.insert(key, value);
}

/// `IndexMap::get`: the value stored under the key, if the key is present.
#[verifier::external_body]
fn index_get(index: &IndexMap<String, usize>, key: &str) -> (position: Option<usize>)
    ensures
        position == if index_entries(*index).contains_key(key@) {
            Some(index_entries(*index)[key@])
        } else {
            None
        },
{
    index.get(key).copied()
}

/// One category of the components table: items, or references to other
/// items of the same category, by name.
pub struct ComponentTable<T> {
    names: IndexMap<String, usize>,
    entries: Vec<RefOr<T>>,
}

impl<T> ComponentTable<T> {
    #[verifier::type_invariant]
    spec fn well_formed(self) -> bool {
        &&& index_entries(self.names).dom().finite()
        &&& forall|name: Seq<char>| #[trigger]
            index_entries(self.names).contains_key(name) ==> index_entries(self.names)[name]
                < self.entries@.len()
    }

    /// The names in the table.
    pub closed spec fn names(self) -> Set<Seq<char>> {
        index_entries(self.names).dom()
    }

    /// What stands under a name of the table.
    pub closed spec fn entry(self, name: Seq<char>) -> RefOr<T> {
        self.entries@[index_entries(self.names)[name] as int]
    }

    /// A table without names.
    pub fn new() -> (table: Self)
        ensures
            table.names() == Set::<Seq<char>>::empty(),
    {
        let table = ComponentTable { names: index_new(), entries: Vec::new() };
        assert(table.names() =~= Set::<Seq<char>>::empty());
        table
    }

    /// The table with `item` under `name`, in place of what stood there.
    pub fn insert(self, name: String, item: RefOr<T>) -> (table: Self)
        ensures
            table.names() == self.names().insert(name@),
            table.entry(name@) == item,
            forall|other: Seq<char>|
                self.names().contains(other) && other != name@ ==> table.entry(other)
                    == self.entry(other),
    {
        proof {
            use_type_invariant(&self);
        }
        let mut names = self.names;
        let mut entries = self.entries;
        let position = entries.len();
        entries.push(item);
        index_insert(&mut names, name, position);
        ComponentTable { names, entries }
    }

    /// Does nothing when run; to the verifier it says that the names of a
    /// table are finitely many.
    pub fn names_are_finite(&self)
        ensures
            self.names().finite(),
    {
        proof {
            use_type_invariant(self);
        }
    }

    /// What stands under `name`, if the table has the name. The names of a
    /// table are finitely many.
    pub fn get(&self, name: &str) -> (found: Option<&RefOr<T>>)
        ensures
            self.names().finite(),
            match found {
                Some(entry) => self.names().contains(name@) && *entry == self.entry(name@),
                None => !self.names().contains(name@),
            },
    {
        proof {
            use_type_invariant(self);
        }
        match index_get(&self.names, name) {
            Some(position) => Some(&self.entries[position]),
            None => None,
        }
    }

}

impl<T: View> View for ComponentTable<T> {
    type V = Map<Seq<char>, RefOrView<T::V>>;

    open spec fn view(&self) -> Map<Seq<char>, RefOrView<T::V>> {
        Map::new(|name: Seq<char>| self.names().contains(name), |name: Seq<char>| self.entry(name)@)
    }
}

} // verus!
