//! Renderer-process document storage: every document tree the process
//! holds, keyed by its globally unique document id. Trees do not belong to a
//! realm; realms refer to them by id.

use std::collections::HashMap;
use vstd::prelude::*;

verus! {

broadcast use vstd::std_specs::hash::group_hash_axioms;

/// A document tree that knows its own id.
pub trait DocumentTree {
    /// The tree's document id.
    fn document_id(&self) -> u32;
}

/// Calls `HashMap::get_mut`: a mutable reference to the value stored under
/// `id`, through which the stored value is changed, or `None` when nothing
/// is stored under it.
#[verifier::external_body]
fn map_get_mut<D>(m: &mut HashMap<u32, D>, id: u32) -> (r: Option<&mut D>)
    ensures
        match r {
            Some(v) => old(m)@.contains_key(id) && *v == old(m)@[id] && final(m)@ == old(m)@.insert(id, *final(v)),
            None => !old(m)@.contains_key(id) && final(m)@ == old(m)@,
        },
{
    m.get_mut(&id)
}

/// Every document tree the renderer process holds, keyed by document id.
pub struct DocumentStore<D> {
    documents: HashMap<u32, D>,
}

impl<D> View for DocumentStore<D> {
    type V = Map<u32, D>;

    closed spec fn view(&self) -> Map<u32, D> {
        self.documents@
    }
}

impl<D: DocumentTree> DocumentStore<D> {
    /// An empty store.
    pub fn new() -> (s: Self)
        ensures
            s@ == Map::<u32, D>::empty(),
    {
        DocumentStore { documents: HashMap::new() }
    }

    /// Stores `parsed` under its document id, replacing any tree stored
    /// under that id, and returns the id.
    pub fn insert(&mut self, parsed: D) -> (id: u32)
        ensures
            final(self)@ == old(self)@.insert(id, parsed),
    {
        let id = parsed.document_id();
        self.documents.insert(id, parsed);
        id
    }

    /// The tree with this document id.
    pub fn get(&self, id: u32) -> (tree: Option<&D>)
        ensures
            match tree {
                Some(t) => self@.contains_key(id) && *t == self@[id],
                None => !self@.contains_key(id),
            },
    {
        self.documents.get(&id)
    }

    /// Mutable access to the tree with this document id.
    pub fn get_mut(&mut self, id: u32) -> (tree: Option<&mut D>)
        ensures
            match tree {
                Some(t) => old(self)@.contains_key(id) && *t == old(self)@[id] && final(self)@ == old(self)@.insert(id, *final(t)),
                None => !old(self)@.contains_key(id) && final(self)@ == old(self)@,
            },
    {
        map_get_mut(&mut self.documents, id)
    }

    /// Removes and returns the tree with this document id.
    pub fn remove(&mut self, id: u32) -> (tree: Option<D>)
        ensures
            final(self)@ == old(self)@.remove(id),
            match tree {
                Some(t) => old(self)@.contains_key(id) && t == old(self)@[id],
                None => !old(self)@.contains_key(id),
            },
    {
        self.documents.remove(&id)
    }
}


/// A tree stored under an id is what a lookup of that id finds, other ids
/// keep their trees, and after a removal nothing is stored under the id.
pub proof fn lemma_store_read_after_write<D>(store: Map<u32, D>, id: u32, tree: D, other: u32)
    requires
        other != id,
    ensures
        store.insert(id, tree).contains_key(id),
        store.insert(id, tree)[id] == tree,
        store.insert(id, tree).contains_key(other) == store.contains_key(other),
        store.contains_key(other) ==> store.insert(id, tree)[other] == store[other],
        !store.insert(id, tree).remove(id).contains_key(id),
{
}

} // verus!
