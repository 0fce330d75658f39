//! A table of shared resources under integer handles.
//!
//! Handles are issued in ascending order, one per load, whether or not the
//! load succeeds: a failed load leaves its handle without a resource.

use vstd::prelude::*;
use std::collections::HashMap;
use std::sync::Arc;

verus! {

/// Produces a resource from a description of it.
pub trait ResourceLoader<R> {
    /// The description that this loader reads.
    type Args: ?Sized;

    /// Loads the resource that `data` describes, or tells why it cannot.
    fn load(&self, data: &Self::Args) -> Result<R, String>;
}

/// Resources of one kind, each under the handle it was loaded or stored
/// with, and the loader that produces them.
pub struct ResourceManager<R, L> where L: ResourceLoader<R> {
    next_id: u32,
    loader: L,
    cache: HashMap<u32, Arc<R>>,
}

/// The value under `id`, for changing it in place.
///
/// Wraps `HashMap::get_mut` of the standard library, which returns a mutable
/// reference to the value under the key if the map has one and `None`
/// otherwise. The map afterwards differs from the map before at most under
/// `id`, where it holds what the reference was left with.
#[verifier::external_body]
fn slot_mut<'a, V>(map: &'a mut HashMap<u32, V>, id: &u32) -> (slot: Option<&'a mut V>)
    ensures
        match slot {
            Some(value) => {
                &&& old(map)@.contains_key(*id)
                &&& *value == old(map)@[*id]
                &&& final(map)@ == old(map)@.insert(*id, *final(value))
            },
            None => !old(map)@.contains_key(*id) && final(map)@ == old(map)@,
        },
{
    map.get_mut(id)
}

/// Another handle to the resource behind `resource`.
///
/// Wraps `Arc::clone` of the standard library, which returns a pointer to
/// the same allocation: the value behind the result is the value behind the
/// argument.
#[verifier::external_body]
fn share<R>(resource: &Arc<R>) -> (shared: Arc<R>)
    ensures
        shared == *resource,
{
    Arc::clone(resource)
}

impl<R, L> ResourceManager<R, L> where L: ResourceLoader<R> {
    /// The resources in the table, by handle.
    pub closed spec fn view(&self) -> Map<u32, R> {
        Map::new(|id: u32| self.cache@.contains_key(id), |id: u32| *self.cache@[id])
    }

    /// The handle that the next load will issue.
    pub closed spec fn spec_next_id(&self) -> u32 {
        self.next_id
    }

    /// The loader that this table loads with.
    pub closed spec fn loader(&self) -> L {
        self.loader
    }

    /// An empty table whose first handle is 0.
    pub fn new(loader: L) -> (manager: Self)
        ensures
            manager@ == Map::<u32, R>::empty(),
            manager.next_id() == 0,
            manager.loader() == loader,
    {
        let manager = ResourceManager { next_id: 0, loader, cache: HashMap::new() };
        assert(manager@ =~= Map::<u32, R>::empty());
        manager
    }

    /// The handle that the next load will issue.
    #[verifier::when_used_as_spec(spec_next_id)]
    pub fn next_id(&self) -> (id: u32)
        ensures
            id == self.next_id(),
    {
        self.next_id
    }

    /// The table after the next handle has been issued for the outcome
    /// `loaded` of a load.
    pub open spec fn after_load(&self, loaded: Result<R, String>) -> Map<u32, R> {
        match loaded {
            Ok(resource) => self@.insert(self.next_id(), resource),
            Err(_) => self@,
        }
    }

    /// Issues the next handle for the outcome of a load. A resource that was
    /// loaded is stored under the handle; after a failure the handle stays
    /// without a resource, and whatever the table held under it stays.
    pub fn store_loaded(&mut self, loaded: Result<R, String>) -> (id: u32)
        requires
            old(self).next_id() < u32::MAX,
        ensures
            id == old(self).next_id(),
            final(self).next_id() == id + 1,
            final(self).loader() == old(self).loader(),
            final(self)@ == old(self).after_load(loaded),
    {
        broadcast use vstd::std_specs::hash::group_hash_axioms;

        let id = self.next_id;
        self.next_id += 1;
        match loaded {
            Ok(resource) => {
                let resource = Arc::new(resource);
                self.cache.insert(id, resource);
                assert(self@ =~= old(self)@.insert(id, *resource));
            },
            Err(_) => {
                assert(self@ =~= old(self)@);
            },
        }
        id
    }

    /// Loads the resource that `details` describes and issues the next
    /// handle for it. The table changes as `store_loaded` says for whatever
    /// the loader returned.
    pub fn load(&mut self, details: &L::Args) -> (id: u32)
        requires
            old(self).next_id() < u32::MAX,
        ensures
            id == old(self).next_id(),
            final(self).next_id() == id + 1,
            final(self).loader() == old(self).loader(),
            exists|loaded: Result<R, String>|
                {
                    &&& call_ensures(L::load, (&old(self).loader(), details), loaded)
                    &&& final(self)@ == #[trigger] old(self).after_load(loaded)
                },
    {
        let loaded = self.loader.load(details);
        let ghost outcome = loaded;
        let id = self.store_loaded(loaded);
        assert(self@ == old(self).after_load(outcome));
        id
    }

    /// The resource under `id`, for changing it in place, if there is one.
    pub fn get_mut(&mut self, id: &u32) -> (slot: Option<&mut Arc<R>>)
        ensures
            final(self).next_id() == old(self).next_id(),
            final(self).loader() == old(self).loader(),
            match slot {
                Some(resource) => {
                    &&& old(self)@.contains_key(*id)
                    &&& **resource == old(self)@[*id]
                    &&& final(self)@ == old(self)@.insert(*id, **final(resource))
                },
                None => !old(self)@.contains_key(*id) && final(self)@ == old(self)@,
            },
    {
        broadcast use vstd::std_specs::hash::group_hash_axioms;

        let slot = slot_mut(&mut self.cache, id);
        slot
    }

    /// Stores `item` under `id`, in place of what the table held there.
    pub fn set(&mut self, id: u32, item: R)
        ensures
            final(self)@ == old(self)@.insert(id, item),
            final(self).next_id() == old(self).next_id(),
            final(self).loader() == old(self).loader(),
    {
        broadcast use vstd::std_specs::hash::group_hash_axioms;

        let resource = Arc::new(item);
        self.cache.insert(id, resource);
        assert(self@ =~= old(self)@.insert(id, item));
    }

    /// The resource under `id`, if there is one.
    pub fn get(&self, id: &u32) -> (found: Option<Arc<R>>)
        ensures
            match found {
                Some(resource) => self@.contains_key(*id) && *resource == self@[*id],
                None => !self@.contains_key(*id),
            },
    {
        broadcast use vstd::std_specs::hash::group_hash_axioms;

        match self.cache.get(id) {
            Some(resource) => Some(share(resource)),
            None => None,
        }
    }
}

} // verus!
