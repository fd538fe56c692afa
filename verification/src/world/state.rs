//! The world: every component of every entity, and the state of the turn.

use vstd::prelude::*;
use std::collections::VecDeque;
use super::object::Collision;
use super::object::Engine;
use super::object::HistoryEvent;
use super::object::Nav;
use super::object::VisibleObject;
use crate::component::components::Components;
use crate::component::positions::Positions;
use crate::component::positions::PositionsView;
use crate::entity::entity_id::EntityId;
use crate::entity::entity_tracker::EntityTracker;
use crate::entity::entity_tracker::EntityTrackerView;
use crate::hex::hex::Hex;
use crate::hex::map::HexMap;

verus! {

/// The vision radius of a new world.
pub const VISION_RADIUS: i32 = 50;

/// The whole state of the simulation.
pub struct World {
    /// Seed of the procedural generation.
    pub seed: u32,
    /// The entity that the player steers.
    pub player: Option<EntityId>,
    /// How far the player sees; the world exists only that far around it.
    pub vision_radius: i32,
    /// For each cell in sight whether it is visible and whether it is
    /// obstructed, as of the last turn.
    pub visibility: HexMap<(bool, bool)>,
    /// Whether a turn is due.
    pub need_simulate: bool,
    /// The number of the turn to come.
    pub turn: i32,
    /// The collisions of the last turn, in the order they happened.
    pub collisions: Vec<Collision>,
    /// The cells that came into sight in the last turn and have not been
    /// populated.
    pub arrivals: Vec<Hex>,
    pub entities: EntityTracker,
    pub name: Components<String>,
    pub position: Positions,
    pub velocity: Components<Hex>,
    pub history: Components<VecDeque<HistoryEvent>>,
    pub engine: Components<Engine>,
    pub visible_object: Components<VisibleObject>,
    pub nav: Components<Nav>,
}

/// The world as a mathematical value.
pub struct WorldView {
    pub seed: u32,
    pub player: Option<EntityId>,
    pub vision_radius: i32,
    pub visibility: Map<Hex, (bool, bool)>,
    pub need_simulate: bool,
    pub turn: i32,
    pub collisions: Seq<Collision>,
    pub arrivals: Seq<Hex>,
    pub entities: EntityTrackerView,
    pub name: Map<EntityId, Seq<char>>,
    pub position: PositionsView,
    pub velocity: Map<EntityId, Hex>,
    pub history: Map<EntityId, Seq<HistoryEvent>>,
    pub engine: Map<EntityId, Engine>,
    pub visible_object: Map<EntityId, VisibleObject>,
    pub nav: Map<EntityId, Nav>,
}

impl View for World {
    type V = WorldView;

    open spec fn view(&self) -> WorldView {
        WorldView {
            seed: self.seed,
            player: self.player,
            vision_radius: self.vision_radius,
            visibility: self.visibility@,
            need_simulate: self.need_simulate,
            turn: self.turn,
            collisions: self.collisions@,
            arrivals: self.arrivals@,
            entities: self.entities@,
            name: spec_names(self.name@),
            position: self.position@,
            velocity: self.velocity@,
            history: spec_histories(self.history@),
            engine: self.engine@,
            visible_object: self.visible_object@,
            nav: self.nav@,
        }
    }
}

/// The stored names as sequences of characters.
pub open spec fn spec_names(stored: Map<EntityId, String>) -> Map<EntityId, Seq<char>> {
    Map::new(
        |entity_id: EntityId| stored.contains_key(entity_id),
        |entity_id: EntityId| stored[entity_id]@,
    )
}

/// The stored histories as sequences.
pub open spec fn spec_histories(stored: Map<EntityId, VecDeque<HistoryEvent>>) -> Map<
    EntityId,
    Seq<HistoryEvent>,
> {
    Map::new(
        |entity_id: EntityId| stored.contains_key(entity_id),
        |entity_id: EntityId| stored[entity_id]@,
    )
}

impl WorldView {
    /// The world before anything is in it.
    pub open spec fn empty() -> WorldView {
        WorldView {
            seed: 0,
            player: None,
            vision_radius: VISION_RADIUS,
            visibility: Map::empty(),
            need_simulate: false,
            turn: 1,
            collisions: Seq::empty(),
            arrivals: Seq::empty(),
            entities: EntityTrackerView { next_index: 0, unused: Seq::empty() },
            name: Map::empty(),
            position: PositionsView::empty(),
            velocity: Map::empty(),
            history: Map::empty(),
            engine: Map::empty(),
            visible_object: Map::empty(),
            nav: Map::empty(),
        }
    }

    /// The settings that no system of a turn touches: seed, player, vision
    /// radius, whether a turn is due, and the turn counter.
    pub open spec fn settings(self) -> (u32, Option<EntityId>, i32, bool, i32) {
        (self.seed, self.player, self.vision_radius, self.need_simulate, self.turn)
    }

    /// Whether any component is attached to `entity_id`.
    pub open spec fn has_component(self, entity_id: EntityId) -> bool {
        ||| self.name.contains_key(entity_id)
        ||| self.position.by_id.contains_key(entity_id)
        ||| self.velocity.contains_key(entity_id)
        ||| self.history.contains_key(entity_id)
        ||| self.engine.contains_key(entity_id)
        ||| self.visible_object.contains_key(entity_id)
        ||| self.nav.contains_key(entity_id)
    }

    /// The registry and the position index are well formed, and components
    /// are attached to live identifiers only.
    pub open spec fn wf(self) -> bool {
        &&& self.entities.wf()
        &&& self.position.wf()
        &&& forall|entity_id: EntityId| #[trigger]
            self.has_component(entity_id) ==> self.entities.is_live(entity_id)
    }

    /// The world after `entity_id` has been destroyed: it has no component
    /// left and its identifier is released.
    pub open spec fn remove(self, entity_id: EntityId) -> WorldView {
        WorldView {
            entities: self.entities.remove(entity_id),
            name: self.name.remove(entity_id),
            position: self.position.del(entity_id),
            velocity: self.velocity.remove(entity_id),
            history: self.history.remove(entity_id),
            engine: self.engine.remove(entity_id),
            visible_object: self.visible_object.remove(entity_id),
            nav: self.nav.remove(entity_id),
            ..self
        }
    }

    /// Whether a cell of the grid is drawn: it is within the vision radius
    /// of the player, where there is a player with a position, and it is
    /// not known to be invisible.
    pub open spec fn is_shown(self, hex: Hex) -> bool {
        let in_range = match self.player {
            Some(player) => self.position.by_id.contains_key(player) ==> hex.spec_distance(
                self.position.by_id[player],
            ) <= self.vision_radius,
            None => true,
        };
        in_range && (self.visibility.contains_key(hex) ==> self.visibility[hex].0)
    }

    /// What is known of a cell's visibility: whether it is visible and
    /// whether it is obstructed.
    pub open spec fn visibility_at(self, hex: Hex) -> Option<(bool, bool)> {
        if self.visibility.contains_key(hex) {
            Some(self.visibility[hex])
        } else {
            None
        }
    }
}

impl World {
    /// A world with nothing in it, before its first turn.
    pub fn new() -> (world: World)
        ensures
            world@ == WorldView::empty(),
            world@.wf(),
    {
        let world = World {
            seed: 0,
            player: None,
            vision_radius: VISION_RADIUS,
            visibility: HexMap::new(),
            need_simulate: false,
            turn: 1,
            collisions: Vec::new(),
            arrivals: Vec::new(),
            entities: EntityTracker::new(),
            name: Components::new(),
            position: Positions::new(),
            velocity: Components::new(),
            history: Components::new(),
            engine: Components::new(),
            visible_object: Components::new(),
            nav: Components::new(),
        };
        proof {
            assert(world@.history =~= Map::<EntityId, Seq<HistoryEvent>>::empty());
            assert(world@.name =~= Map::<EntityId, Seq<char>>::empty());
        }
        world
    }

    /// The entities that exist, in the order of their identifiers.
    pub fn all_entities(&self) -> (ids: Vec<EntityId>)
        ensures
            ids@ == self@.entities.live(),
    {
        self.entities.live()
    }

    /// Where an entity is.
    pub fn position(&self, entity_id: EntityId) -> (hex: Option<Hex>)
        ensures
            hex == (if self@.position.by_id.contains_key(entity_id) {
                Some(self@.position.by_id[entity_id])
            } else {
                None
            }),
    {
        match self.position.get(entity_id) {
            Some(found) => Some(*found),
            None => None,
        }
    }

    /// What an entity is drawn as.
    pub fn visible_object(&self, entity_id: EntityId) -> (tag: Option<VisibleObject>)
        ensures
            tag == (if self@.visible_object.contains_key(entity_id) {
                Some(self@.visible_object[entity_id])
            } else {
                None
            }),
    {
        match self.visible_object.get(entity_id) {
            Some(found) => Some(*found),
            None => None,
        }
    }

    /// The trail of an entity, oldest entry first.
    pub fn history(&self, entity_id: EntityId) -> (trail: Option<Vec<HistoryEvent>>)
        ensures
            match trail {
                Some(events) => self@.history.contains_key(entity_id) && events@
                    == self@.history[entity_id],
                None => !self@.history.contains_key(entity_id),
            },
    {
        match self.history.get(entity_id) {
            Some(found) => {
                let mut events: Vec<HistoryEvent> = Vec::new();
                let mut i: usize = 0;
                while i < found.len()
                    invariant
                        i <= found@.len(),
                        events@ == found@.take(i as int),
                    decreases found@.len() - i,
                {
                    events.push(found[i]);
                    proof {
                        assert(events@ =~= found@.take(i + 1));
                    }
                    i = i + 1;
                }
                proof {
                    assert(found@.take(i as int) =~= found@);
                }
                Some(events)
            },
            None => None,
        }
    }

    /// The engine of an entity.
    pub fn engine(&self, entity_id: EntityId) -> (engine: Option<Engine>)
        ensures
            engine == (if self@.engine.contains_key(entity_id) {
                Some(self@.engine[entity_id])
            } else {
                None
            }),
    {
        match self.engine.get(entity_id) {
            Some(found) => Some(*found),
            None => None,
        }
    }

    /// Whether a cell is visible and whether it is obstructed, as of the
    /// last turn; nothing for a cell out of sight.
    pub fn visibility(&self, hex: Hex) -> (flags: Option<(bool, bool)>)
        ensures
            flags == self@.visibility_at(hex),
    {
        match self.visibility.get(hex) {
            Some(found) => Some(*found),
            None => None,
        }
    }

    /// Whether a cell of the grid is drawn.
    pub fn is_shown(&self, hex: Hex) -> (shown: bool)
        ensures
            shown == self@.is_shown(hex),
    {
        if let Some(player) = self.player {
            if let Some(position) = self.position.get(player) {
                if hex.distance_exceeds(*position, self.vision_radius) {
                    return false;
                }
            }
        }
        match self.visibility.get(hex) {
            Some((visible, _)) => *visible,
            None => true,
        }
    }

    /// The occupants of a cell as they are now, in the order of their
    /// arrival.
    pub fn occupants(&self, cell: Hex) -> (occupants: Vec<EntityId>)
        ensures
            occupants@ == self@.position.at(cell),
    {
        let mut copy: Vec<EntityId> = Vec::new();
        if let Some(found) = self.position.at(cell) {
            let mut i: usize = 0;
            while i < found.len()
                invariant
                    i <= found.len(),
                    copy@ == found@.take(i as int),
                decreases found.len() - i,
            {
                copy.push(found[i]);
                proof {
                    assert(copy@ =~= found@.take(i + 1));
                }
                i = i + 1;
            }
            proof {
                assert(found@.take(i as int) =~= found@);
            }
        }
        copy
    }

    /// Destroys an entity: takes every component from it and releases its
    /// identifier.
    pub fn remove(&mut self, entity_id: EntityId)
        ensures
            final(self)@ == old(self)@.remove(entity_id),
            final(self)@.settings() == old(self)@.settings(),
            old(self)@.wf() && old(self)@.entities.is_live(entity_id) ==> final(self)@.wf(),
    {
        proof {
            if self@.wf() && self@.entities.is_live(entity_id) {
                super::laws::lemma_remove_wf(self@, entity_id);
            }
        }
        self.name.del(entity_id);
        self.position.del(entity_id);
        self.velocity.del(entity_id);
        self.history.del(entity_id);
        self.engine.del(entity_id);
        self.visible_object.del(entity_id);
        self.nav.del(entity_id);
        self.entities.remove(entity_id);
        proof {
            assert(self@.history =~= old(self)@.history.remove(entity_id));
            assert(self@.name =~= old(self)@.name.remove(entity_id));
        }
    }
}

} // verus!
