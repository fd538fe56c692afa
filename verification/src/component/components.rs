//! One kind of component: at most one value per entity.

use vstd::prelude::*;
use std::collections::hash_map::Entry;
use std::collections::HashMap;
use crate::entity::entity_id::EntityId;

verus! {

broadcast use vstd::std_specs::hash::group_hash_axioms;

/// Sparse storage of one value of type `T` per entity that has one.
pub struct Components<T> {
    by_id: HashMap<u16, T>,
}

impl<T> View for Components<T> {
    type V = Map<EntityId, T>;

    closed spec fn view(&self) -> Map<EntityId, T> {
        Map::new(
            |entity_id: EntityId| self.by_id@.contains_key(entity_id.index),
            |entity_id: EntityId| self.by_id@[entity_id.index],
        )
    }
}

impl<T> Default for Components<T> {
    fn default() -> (components: Self)
        ensures
            components@ == Map::<EntityId, T>::empty(),
    {
        Components::new()
    }
}

impl<T> Components<T> {
    /// Storage in which no entity has a value.
    pub fn new() -> (components: Self)
        ensures
            components@ == Map::<EntityId, T>::empty(),
    {
        let components = Components { by_id: HashMap::new() };
        assert(components@ =~= Map::<EntityId, T>::empty());
        components
    }

    pub fn has(&self, entity_id: EntityId) -> (present: bool)
        ensures
            present == self@.contains_key(entity_id),
    {
        self.by_id.contains_key(&entity_id.index)
    }

    pub fn get(&self, entity_id: EntityId) -> (component: Option<&T>)
        ensures
            match component {
                Some(value) => self@.contains_key(entity_id) && *value == self@[entity_id],
                None => !self@.contains_key(entity_id),
            },
    {
        self.by_id.get(&entity_id.index)
    }

    /// A mutable borrow of the entity's value; what is written through it
    /// is what the storage holds afterwards.
    pub fn get_mut(&mut self, entity_id: EntityId) -> (component: Option<&mut T>)
        ensures
            match component {
                Some(value) => {
                    &&& old(self)@.contains_key(entity_id)
                    &&& *value == old(self)@[entity_id]
                    &&& final(self)@ == old(self)@.insert(entity_id, *final(value))
                },
                None => !old(self)@.contains_key(entity_id) && final(self)@ == old(self)@,
            },
    {
        match self.by_id.entry(entity_id.index) {
            Entry::Occupied(occupied) => Some(occupied.into_mut()),
            Entry::Vacant(_) => None,
        }
    }

    pub fn set(&mut self, entity_id: EntityId, component: T)
        ensures
            final(self)@ == old(self)@.insert(entity_id, component),
    {
        self.by_id.insert(entity_id.index, component);
        assert(self@ =~= old(self)@.insert(entity_id, component));
    }

    pub fn del(&mut self, entity_id: EntityId)
        ensures
            final(self)@ == old(self)@.remove(entity_id),
    {
        self.by_id.remove(&entity_id.index);
        assert(self@ =~= old(self)@.remove(entity_id));
    }
}

} // verus!
