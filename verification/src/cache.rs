//! The pool level cache of collection ids and their names.

use vstd::prelude::*;

use crate::table::{Table, Value};

verus! {

/// Collections by name and by id.
#[derive(Debug)]
pub struct CollectionCache {
    by_name: Table<String, i32>,
    by_id: Table<i32, String>,
}

/// A `CollectionCache` in terms of views.
pub struct CacheView {
    /// The id of a collection, by its name.
    pub ids: Map<Seq<char>, i32>,
    /// The name of a collection, by its id.
    pub names: Map<i32, Seq<char>>,
}

impl CacheView {
    /// The cache with one collection more.
    pub open spec fn put(self, id: i32, name: Seq<char>) -> CacheView {
        CacheView { ids: self.ids.insert(name, id), names: self.names.insert(id, name) }
    }
}

impl DeepView for CollectionCache {
    type V = CacheView;

    closed spec fn deep_view(&self) -> CacheView {
        CacheView { ids: self.by_name@, names: self.by_id@ }
    }
}

impl View for CollectionCache {
    type V = CacheView;

    open spec fn view(&self) -> CacheView {
        self.deep_view()
    }
}

impl Value for CollectionCache {
    fn duplicate(&self) -> (copy: Self) {
        CollectionCache { by_name: self.by_name.clone(), by_id: self.by_id.clone() }
    }
}

impl CollectionCache {
    /// A cache that knows no collection.
    pub fn new() -> (cache: CollectionCache)
        ensures
            cache@ == (CacheView { ids: Map::empty(), names: Map::empty() }),
    {
        CollectionCache { by_name: Table::new(), by_id: Table::new() }
    }

    /// The id of the collection of that name.
    pub fn get_id(&self, name: &String) -> (id: Option<i32>)
        ensures
            id == (if self@.ids.contains_key(name@) {
                Some(self@.ids[name@])
            } else {
                None
            }),
    {
        match self.by_name.get(name) {
            Some(id) => Some(*id),
            None => None,
        }
    }

    /// The name of the collection with that id.
    pub fn get_name(&self, id: i32) -> (name: Option<String>)
        ensures
            name.deep_view() == (if self@.names.contains_key(id) {
                Some(self@.names[id])
            } else {
                None
            }),
    {
        match self.by_id.get(&id) {
            Some(name) => Some(name.clone()),
            None => None,
        }
    }

    /// Enters a collection.
    pub fn put(&mut self, id: i32, name: String)
        ensures
            final(self)@ == old(self)@.put(id, name@),
    {
        self.by_name.insert(name.clone(), id);
        self.by_id.insert(id, name);
    }

    /// Enters every collection that another cache knows.
    pub fn absorb(&mut self, other: &CollectionCache)
        ensures
            final(self)@ == (CacheView {
                ids: old(self)@.ids.union_prefer_right(other@.ids),
                names: old(self)@.names.union_prefer_right(other@.names),
            }),
    {
        self.by_name.absorb(&other.by_name);
        self.by_id.absorb(&other.by_id);
    }
}

} // verus!
