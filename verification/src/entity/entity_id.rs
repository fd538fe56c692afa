//! The handle by which a simulated object is known.

use vstd::prelude::*;

verus! {

/// A small integer handle that identifies one simulated object.
#[derive(Copy, Clone, Debug, Hash, PartialEq, Eq, Structural)]
pub struct EntityId {
    pub index: u16,
}

pub fn new_entity_id(index: u16) -> (entity_id: EntityId)
    ensures
        entity_id == (EntityId { index }),
{
    EntityId { index }
}

pub fn index_of_entity_id(entity_id: EntityId) -> (index: u16)
    ensures
        index == entity_id.index,
{
    entity_id.index
}

} // verus!
