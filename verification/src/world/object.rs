//! The components that the simulation attaches to entities.

use vstd::prelude::*;
use crate::color::Color;
use crate::entity::entity_id::EntityId;
use crate::hex::hex::Hex;

verus! {

/// What an object is drawn as, and how a collision with it is told apart.
#[derive(Copy, Clone, Debug, PartialEq, Eq, Structural)]
pub enum ObjectType {
    Ship,
    Asteroid,
    Gravity0,
    Gravity1,
    Gravity2,
    Gravity3,
    Gravity4,
    Gravity5,
}

/// An object's kind and color. The simulation reads the kind; the color is
/// carried along for whoever draws the object.
#[derive(Copy, Clone, Debug, PartialEq, Eq, Structural)]
pub struct VisibleObject(pub ObjectType, pub Color);

/// What an entity steers towards by itself.
#[derive(Copy, Clone, Debug, PartialEq, Eq, Structural)]
pub enum Nav {
    Idle,
    GoTo(Hex),
    Seek(EntityId),
}

/// Where an entity was at the end of a turn, and how much thrust it applied
/// in the turn that followed.
#[derive(Copy, Clone, Debug, PartialEq, Eq, Structural)]
pub struct HistoryEvent {
    pub position: Hex,
    pub thrust_applied: i32,
}

/// How far an entity may change its velocity in one turn, and how far it
/// has done so in this one.
#[derive(Copy, Clone, Debug, PartialEq, Eq, Structural)]
pub struct Engine {
    pub power: i32,
    pub thrust_applied: i32,
}

/// One entity's path has crossed a cell that another occupies.
#[derive(Copy, Clone, Debug, PartialEq, Eq, Structural)]
pub struct Collision {
    /// The entity that moved.
    pub entity: EntityId,
    /// The occupant it met.
    pub other: EntityId,
    /// What the occupant is.
    pub kind: ObjectType,
}

impl ObjectType {
    /// The direction in which a gravity well deflects what passes through
    /// it; nothing else deflects.
    pub open spec fn spec_gravity_direction(self) -> Option<i32> {
        match self {
            ObjectType::Ship => None,
            ObjectType::Asteroid => None,
            ObjectType::Gravity0 => Some(0i32),
            ObjectType::Gravity1 => Some(1i32),
            ObjectType::Gravity2 => Some(2i32),
            ObjectType::Gravity3 => Some(3i32),
            ObjectType::Gravity4 => Some(4i32),
            ObjectType::Gravity5 => Some(5i32),
        }
    }

    /// The direction in which a gravity well deflects what passes through
    /// it; nothing else deflects.
    pub fn gravity_direction(self) -> (direction: Option<i32>)
        ensures
            direction == self.spec_gravity_direction(),
    {
        match self {
            ObjectType::Ship => None,
            ObjectType::Asteroid => None,
            ObjectType::Gravity0 => Some(0),
            ObjectType::Gravity1 => Some(1),
            ObjectType::Gravity2 => Some(2),
            ObjectType::Gravity3 => Some(3),
            ObjectType::Gravity4 => Some(4),
            ObjectType::Gravity5 => Some(5),
        }
    }

    /// The gravity well that stands on the side `direction` of a planet; it
    /// deflects towards the planet, against `direction`.
    pub open spec fn spec_gravity_well(direction: int) -> ObjectType {
        let k = direction % 6;
        if k == 3 {
            ObjectType::Gravity0
        } else if k == 4 {
            ObjectType::Gravity1
        } else if k == 5 {
            ObjectType::Gravity2
        } else if k == 0 {
            ObjectType::Gravity3
        } else if k == 1 {
            ObjectType::Gravity4
        } else {
            ObjectType::Gravity5
        }
    }

    /// The gravity well that stands on the side `direction` of a planet.
    pub fn gravity_well(direction: i32) -> (kind: ObjectType)
        ensures
            kind == Self::spec_gravity_well(direction as int),
            kind.spec_gravity_direction() == Some(((direction + 3) % 6) as i32),
    {
        // 2147483652 is a multiple of six that lifts every i32 above zero.
        let k: i64 = (direction as i64 + 2147483652) % 6;
        if k == 3 {
            ObjectType::Gravity0
        } else if k == 4 {
            ObjectType::Gravity1
        } else if k == 5 {
            ObjectType::Gravity2
        } else if k == 0 {
            ObjectType::Gravity3
        } else if k == 1 {
            ObjectType::Gravity4
        } else {
            ObjectType::Gravity5
        }
    }
}

} // verus!
