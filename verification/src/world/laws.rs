//! What every system keeps true of the world: the registry and the position
//! index stay well formed, and no component is ever attached to an
//! identifier that is not live.

use vstd::prelude::*;
use super::generate::spec_add_gravity;
use super::generate::spec_add_gravity_wells;
use super::generate::spec_add_ship;
use super::generate::spec_initialize;
use super::generate::spec_populate;
use super::input::spec_input;
use super::input::spec_request_thrust;
use super::movement::spec_collide;
use super::movement::spec_collide_all;
use super::movement::spec_move_all;
use super::movement::spec_move_entity;
use super::movement::spec_movement_system;
use super::movement::spec_sweep;
use super::nav::spec_nav_all;
use super::nav::spec_nav_entity;
use super::nav::spec_nav_system;
use super::object::Nav;
use super::object::VisibleObject;
use super::state::WorldView;
use super::streaming::spec_arrivals;
use super::streaming::spec_depart;
use super::streaming::spec_player_track;
use super::streaming::spec_spiral_fits;
use super::streaming::spec_destroy_all;
use super::streaming::spec_spawn;
use super::streaming::spec_streaming_system;
use super::turn::spec_simulate_event;
use super::turn::spec_step;
use super::vision::spec_vision_system;
use crate::color::Color;
use crate::component::positions::lemma_del_keeps_wf;
use crate::component::positions::lemma_without;
use crate::component::positions::lemma_set_keeps_wf;
use crate::entity::entity_id::EntityId;
use crate::entity::entity_tracker::lemma_create_issues_fresh;
use crate::entity::entity_tracker::lemma_remove_releases;
use crate::hex::hex::lemma_spiral_is_disc;
use crate::seqs::lemma_drop_last_contains;
use crate::seqs::lemma_drop_last_no_duplicates;
use crate::seqs::lemma_no_member_is_empty;
use crate::seqs::lemma_push_contains;
use crate::hex::hex::spec_spiral;
use crate::hex::hex::Hex;

verus! {

impl WorldView {
    /// Whether this world differs from `before` at most in velocities of
    /// entities that had one, and in the collisions recorded.
    pub open spec fn collided_from(self, before: WorldView) -> bool {
        &&& self == (WorldView { velocity: self.velocity, collisions: self.collisions, ..before })
        &&& forall|entity_id: EntityId|
            self.velocity.contains_key(entity_id) <==> before.velocity.contains_key(entity_id)
    }

    /// Whether this world has the registry, the positions and the attachment
    /// of components to entities of `before`.
    pub open spec fn same_entities(self, before: WorldView) -> bool {
        &&& self.entities == before.entities
        &&& self.position == before.position
        &&& forall|entity_id: EntityId|
            self.has_component(entity_id) <==> before.has_component(entity_id)
    }
}

/// A world that differs from a well-formed one in no entity, position or
/// attachment of a component is well formed.
pub proof fn lemma_same_entities_wf(after: WorldView, before: WorldView)
    requires
        before.wf(),
        after.same_entities(before),
    ensures
        after.wf(),
{
    assert forall|entity_id: EntityId| #[trigger]
        after.has_component(entity_id) implies after.entities.is_live(entity_id) by {
        assert(before.has_component(entity_id));
    }
}

/// Navigation of one entity changes no entity, position or attachment.
pub proof fn lemma_nav_entity_keeps(world: WorldView, entity_id: EntityId)
    ensures
        spec_nav_entity(world, entity_id).same_entities(world),
        spec_nav_entity(world, entity_id).settings() == world.settings(),
{
}

/// Navigation changes no entity, position or attachment.
pub proof fn lemma_nav_all_keeps(world: WorldView, ids: Seq<EntityId>)
    ensures
        spec_nav_all(world, ids).same_entities(world),
        spec_nav_all(world, ids).settings() == world.settings(),
    decreases ids.len(),
{
    if ids.len() > 0 {
        lemma_nav_all_keeps(world, ids.drop_last());
        lemma_nav_entity_keeps(spec_nav_all(world, ids.drop_last()), ids.last());
    }
}

/// A collision changes at most a velocity and the list of collisions.
pub proof fn lemma_collide_all_keeps(world: WorldView, entity: EntityId, others: Seq<EntityId>)
    ensures
        spec_collide_all(world, entity, others).collided_from(world),
    decreases others.len(),
{
    if others.len() > 0 {
        lemma_collide_all_keeps(world, entity, others.drop_last());
        let before = spec_collide_all(world, entity, others.drop_last());
        assert(spec_collide(before, entity, others.last()).collided_from(before));
    }
}

/// A sweep changes at most a velocity and the list of collisions.
pub proof fn lemma_sweep_keeps(
    world: WorldView,
    entity: EntityId,
    start: Hex,
    end: Hex,
    upto: int,
)
    ensures
        spec_sweep(world, entity, start, end, upto).collided_from(world),
    decreases upto,
{
    if upto > 1 {
        lemma_sweep_keeps(world, entity, start, end, upto - 1);
        let before = spec_sweep(world, entity, start, end, upto - 1);
        lemma_collide_all_keeps(
            before,
            entity,
            super::movement::spec_occupants_met(
                before,
                crate::hex::line::spec_line_step(start, end, upto - 1),
            ),
        );
    }
}

/// The movement of one entity keeps a well-formed world well formed.
pub proof fn lemma_move_entity_wf(world: WorldView, entity_id: EntityId)
    requires
        world.wf(),
    ensures
        spec_move_entity(world, entity_id).wf(),
        spec_move_entity(world, entity_id).entities == world.entities,
        spec_move_entity(world, entity_id).settings() == world.settings(),
{
    let after = spec_move_entity(world, entity_id);
    if after != world {
        let start = world.position.by_id[entity_id];
        let velocity = world.velocity[entity_id];
        let end = start.spec_offset(velocity.q as int, velocity.r as int);
        let swept = spec_sweep(world, entity_id, start, end, velocity.spec_len() + 1);
        lemma_sweep_keeps(world, entity_id, start, end, velocity.spec_len() + 1);
        lemma_set_keeps_wf(world.position, entity_id, end);
        assert forall|other: EntityId| #[trigger]
            after.has_component(other) implies after.entities.is_live(other) by {
            assert(world.has_component(entity_id));
            assert(world.has_component(other));
        }
    }
}

/// Movement keeps a well-formed world well formed.
pub proof fn lemma_move_all_wf(world: WorldView, ids: Seq<EntityId>)
    requires
        world.wf(),
    ensures
        spec_move_all(world, ids).wf(),
        spec_move_all(world, ids).entities == world.entities,
        spec_move_all(world, ids).settings() == world.settings(),
    decreases ids.len(),
{
    if ids.len() > 0 {
        lemma_move_all_wf(world, ids.drop_last());
        lemma_move_entity_wf(spec_move_all(world, ids.drop_last()), ids.last());
    }
}

/// The destruction of a live entity keeps a well-formed world well formed;
/// the entity is live no more and has no component, and nothing changes
/// for any other.
pub proof fn lemma_remove_wf(world: WorldView, entity_id: EntityId)
    requires
        world.wf(),
        world.entities.is_live(entity_id),
    ensures
        world.remove(entity_id).wf(),
        !world.remove(entity_id).entities.is_live(entity_id),
        !world.remove(entity_id).has_component(entity_id),
        forall|other: EntityId|
            other != entity_id ==> (world.remove(entity_id).entities.is_live(other)
                <==> world.entities.is_live(other)),
        forall|other: EntityId|
            other != entity_id ==> (world.remove(entity_id).has_component(other)
                <==> world.has_component(other)),
{
    let after = world.remove(entity_id);
    lemma_remove_releases(world.entities, entity_id);
    lemma_del_keeps_wf(world.position, entity_id);
    assert forall|other: EntityId| #[trigger]
        after.has_component(other) implies after.entities.is_live(other) by {
        assert(other != entity_id);
        assert(world.has_component(other));
    }
}

/// The destruction of live entities, each named once, keeps a well-formed
/// world well formed, and takes the life of no entity that is not named.
pub proof fn lemma_destroy_all_wf(world: WorldView, ids: Seq<EntityId>)
    requires
        world.wf(),
        ids.no_duplicates(),
        forall|i: int| 0 <= i < ids.len() ==> world.entities.is_live(#[trigger] ids[i]),
    ensures
        spec_destroy_all(world, ids).wf(),
        spec_destroy_all(world, ids).settings() == world.settings(),
        forall|other: EntityId|
            !ids.contains(other) ==> (spec_destroy_all(world, ids).entities.is_live(other)
                <==> world.entities.is_live(other)),
    decreases ids.len(),
{
    if ids.len() > 0 {
        let front = ids.drop_last();
        let last = ids.last();
        assert forall|i: int| 0 <= i < front.len() implies world.entities.is_live(
            #[trigger] front[i],
        ) by {
            assert(front[i] == ids[i]);
        }
        assert(front.no_duplicates()) by {
            assert forall|i: int, j: int|
                0 <= i < front.len() && 0 <= j < front.len() && i != j implies front[i]
                != front[j] by {
                assert(ids[i] != ids[j]);
            }
        }
        lemma_destroy_all_wf(world, front);
        let before = spec_destroy_all(world, front);
        assert(!front.contains(last)) by {
            if front.contains(last) {
                let i = choose|i: int| 0 <= i < front.len() && front[i] == last;
                assert(ids[i] == ids[ids.len() - 1]);
            }
        }
        assert(world.entities.is_live(ids[ids.len() - 1]));
        lemma_remove_wf(before, last);
        assert forall|other: EntityId| !ids.contains(other) implies (spec_destroy_all(
            world,
            ids,
        ).entities.is_live(other) <==> world.entities.is_live(other)) by {
            assert(other != last) by {
                if other == last {
                    assert(ids[ids.len() - 1] == other);
                }
            }
            assert(!front.contains(other)) by {
                if front.contains(other) {
                    let i = choose|i: int| 0 <= i < front.len() && front[i] == other;
                    assert(ids[i] == other);
                }
            }
        }
    }
}

/// The departure of what is out of sight keeps a well-formed world well
/// formed.
pub proof fn lemma_depart_wf(world: WorldView, cells: Seq<Hex>, current: Hex, radius: int)
    requires
        world.wf(),
    ensures
        spec_depart(world, cells, current, radius).wf(),
        spec_depart(world, cells, current, radius).settings() == world.settings(),
    decreases cells.len(),
{
    if cells.len() > 0 {
        lemma_depart_wf(world, cells.drop_last(), current, radius);
        let before = spec_depart(world, cells.drop_last(), current, radius);
        let occupants = before.position.at(cells.last());
        assert(occupants.no_duplicates());
        assert forall|i: int| 0 <= i < occupants.len() implies before.entities.is_live(
            #[trigger] occupants[i],
        ) by {
            assert(before.position.at(cells.last()).contains(occupants[i]));
            assert(before.has_component(occupants[i]));
        }
        lemma_destroy_all_wf(before, occupants);
    }
}

/// The destruction of a live entity adds no occupant to any cell, and the
/// entity is an occupant of none afterwards.
pub proof fn lemma_remove_shrinks(world: WorldView, entity_id: EntityId)
    requires
        world.wf(),
        world.entities.is_live(entity_id),
    ensures
        forall|cell: Hex, occupant: EntityId| #[trigger]
            world.remove(entity_id).position.at(cell).contains(occupant) ==> world.position.at(
                cell,
            ).contains(occupant) && occupant != entity_id,
{
    let after = world.remove(entity_id);
    lemma_remove_wf(world, entity_id);
    assert forall|cell: Hex, occupant: EntityId|
        after.position.at(cell).contains(occupant) implies world.position.at(cell).contains(
        occupant,
    ) && occupant != entity_id by {
        assert(after.position.by_id.contains_key(occupant));
        if world.position.by_id.contains_key(entity_id) {
            let home = world.position.by_id[entity_id];
            assert(world.position.at(home).contains(entity_id));
            lemma_without(world.position.by_hex[home], entity_id);
        }
    }
}

/// The destruction of live entities, each named once, adds no occupant to
/// any cell, and none of them is an occupant of any afterwards.
pub proof fn lemma_destroy_all_shrinks(world: WorldView, ids: Seq<EntityId>)
    requires
        world.wf(),
        ids.no_duplicates(),
        forall|i: int| 0 <= i < ids.len() ==> world.entities.is_live(#[trigger] ids[i]),
    ensures
        forall|cell: Hex, occupant: EntityId| #[trigger]
            spec_destroy_all(world, ids).position.at(cell).contains(occupant)
                ==> world.position.at(cell).contains(occupant) && !ids.contains(occupant),
    decreases ids.len(),
{
    if ids.len() > 0 {
        let front = ids.drop_last();
        let last = ids.last();
        assert forall|i: int| 0 <= i < front.len() implies world.entities.is_live(
            #[trigger] front[i],
        ) by {
            assert(front[i] == ids[i]);
        }
        lemma_drop_last_no_duplicates(ids);
        lemma_drop_last_contains(ids);
        lemma_destroy_all_wf(world, front);
        lemma_destroy_all_shrinks(world, front);
        let before = spec_destroy_all(world, front);
        let after = spec_destroy_all(world, ids);
        assert(after == before.remove(last));
        assert(world.entities.is_live(ids[ids.len() - 1]));
        lemma_remove_shrinks(before, last);
        assert forall|cell: Hex, occupant: EntityId|
            after.position.at(cell).contains(occupant) implies world.position.at(cell).contains(
            occupant,
        ) && !ids.contains(occupant) by {
            assert(before.remove(last).position.at(cell).contains(occupant));
            assert(before.position.at(cell).contains(occupant));
        }
    }
}

/// After the departure no cell has gained an occupant, and each of the
/// cells that lie beyond the radius is empty.
pub proof fn lemma_depart_empties(world: WorldView, cells: Seq<Hex>, current: Hex, radius: int)
    requires
        world.wf(),
    ensures
        forall|cell: Hex, occupant: EntityId| #[trigger]
            spec_depart(world, cells, current, radius).position.at(cell).contains(occupant)
                ==> world.position.at(cell).contains(occupant),
        forall|cell: Hex| #[trigger]
            cells.contains(cell) && cell.spec_distance(current) > radius ==> spec_depart(
                world,
                cells,
                current,
                radius,
            ).position.at(cell).len() == 0,
    decreases cells.len(),
{
    if cells.len() > 0 {
        let front = cells.drop_last();
        let last = cells.last();
        lemma_depart_empties(world, front, current, radius);
        lemma_depart_wf(world, front, current, radius);
        lemma_drop_last_contains(cells);
        let before = spec_depart(world, front, current, radius);
        let after = spec_depart(world, cells, current, radius);
        if last.spec_distance(current) > radius {
            let occupants = before.position.at(last);
            assert(after == spec_destroy_all(before, occupants));
            assert(occupants.no_duplicates());
            assert forall|i: int| 0 <= i < occupants.len() implies before.entities.is_live(
                #[trigger] occupants[i],
            ) by {
                assert(before.position.at(last).contains(occupants[i]));
                assert(before.has_component(occupants[i]));
            }
            lemma_destroy_all_shrinks(before, occupants);
            assert forall|occupant: EntityId| !after.position.at(last).contains(occupant) by {
                if after.position.at(last).contains(occupant) {
                    assert(spec_destroy_all(before, occupants).position.at(last).contains(
                        occupant,
                    ));
                    assert(before.position.at(last).contains(occupant));
                    assert(!occupants.contains(occupant));
                }
            }
            lemma_no_member_is_empty(after.position.at(last));
        } else {
            assert(after == before);
        }
        assert forall|cell: Hex, occupant: EntityId|
            after.position.at(cell).contains(occupant) implies before.position.at(cell).contains(
            occupant,
        ) by {
            if last.spec_distance(current) > radius {
                assert(spec_destroy_all(before, before.position.at(last)).position.at(
                    cell,
                ).contains(occupant));
            }
        }
        assert forall|cell: Hex|
            cells.contains(cell) && cell.spec_distance(current) > radius implies after.position.at(
            cell,
        ).len() == 0 by {
            if cell != last {
                assert(front.contains(cell));
                assert(before.position.at(cell).len() == 0);
                assert forall|occupant: EntityId| !after.position.at(cell).contains(occupant) by {
                    if after.position.at(cell).contains(occupant) {
                        let found = before.position.at(cell);
                        assert(found.contains(occupant));
                        let i = choose|i: int| 0 <= i < found.len() && found[i] == occupant;
                    }
                }
                lemma_no_member_is_empty(after.position.at(cell));
            }
        }
    }
}

/// An arrival is a cell of those looked at that was out of sight before.
pub proof fn lemma_arrivals(cells: Seq<Hex>, previous: Option<Hex>, radius: int)
    ensures
        forall|cell: Hex|
            spec_arrivals(cells, previous, radius).contains(cell) <==> cells.contains(cell) && (
            match previous {
                Some(center) => cell.spec_distance(center) > radius,
                None => true,
            }),
    decreases cells.len(),
{
    if cells.len() > 0 {
        let front = cells.drop_last();
        let last = cells.last();
        lemma_arrivals(front, previous, radius);
        lemma_drop_last_contains(cells);
        lemma_push_contains(spec_arrivals(front, previous, radius), last);
    }
}

/// What streaming comes to, where the player has moved from `previous` to
/// `current` and both spirals can be enumerated: no entity is left in a
/// cell that was within the vision radius of the previous position, the
/// position itself apart, and is not within it of the current one; and the
/// arrivals are the cells within the radius of the current position, the
/// position itself apart, that were not within it of the previous one.
pub proof fn lemma_streaming_moves_the_horizon(world: WorldView, current: Hex, previous: Hex)
    requires
        world.wf(),
        spec_player_track(world) == Some((current, Some(previous))),
        current != previous,
        spec_spiral_fits(current, world.vision_radius as int),
        spec_spiral_fits(previous, world.vision_radius as int),
    ensures
        forall|cell: Hex|
            1 <= previous.spec_distance(cell) <= world.vision_radius && cell.spec_distance(current)
                > world.vision_radius ==> spec_streaming_system(world).position.at(cell).len()
                == 0,
        forall|cell: Hex|
            spec_streaming_system(world).arrivals.contains(cell) <==> 1 <= current.spec_distance(
                cell,
            ) <= world.vision_radius && cell.spec_distance(previous) > world.vision_radius,
{
    let radius = world.vision_radius as int;
    let cleared = WorldView { arrivals: Seq::empty(), ..world };
    let left = spec_spiral(previous, radius);
    let entered = spec_spiral(current, radius);
    let after = spec_streaming_system(world);
    lemma_same_entities_wf(cleared, world);
    lemma_depart_empties(cleared, left, current, radius);
    lemma_spiral_is_disc(previous, radius);
    lemma_spiral_is_disc(current, radius);
    lemma_arrivals(entered, Some(previous), radius);
    assert(after.position == spec_depart(cleared, left, current, radius).position);
    assert(after.arrivals == spec_arrivals(entered, Some(previous), radius));
    assert forall|cell: Hex|
        1 <= previous.spec_distance(cell) <= world.vision_radius && cell.spec_distance(current)
            > world.vision_radius implies after.position.at(cell).len() == 0 by {
        assert(left.contains(cell));
    }
    assert forall|cell: Hex|
        after.arrivals.contains(cell) <==> 1 <= current.spec_distance(cell) <= world.vision_radius
            && cell.spec_distance(previous) > world.vision_radius by {
        assert(entered.contains(cell) <==> 1 <= current.spec_distance(cell) <= radius);
    }
}

/// Streaming keeps a well-formed world well formed.
pub proof fn lemma_streaming_wf(world: WorldView)
    requires
        world.wf(),
    ensures
        spec_streaming_system(world).wf(),
        spec_streaming_system(world).settings() == world.settings(),
{
    let cleared = WorldView { arrivals: Seq::empty(), ..world };
    lemma_same_entities_wf(cleared, world);
    match super::streaming::spec_player_track(world) {
        Some((current, Some(center))) => {
            let radius = world.vision_radius as int;
            let departed = spec_depart(
                cleared,
                crate::hex::hex::spec_spiral(center, radius),
                current,
                radius,
            );
            lemma_depart_wf(cleared, crate::hex::hex::spec_spiral(center, radius), current, radius);
            let after = spec_streaming_system(world);
            if after != cleared {
                lemma_same_entities_wf(after, departed);
            }
        },
        Some((current, None)) => {
            lemma_same_entities_wf(spec_streaming_system(world), cleared);
        },
        None => {},
    }
}

/// Vision keeps a well-formed world well formed.
pub proof fn lemma_vision_wf(world: WorldView)
    requires
        world.wf(),
    ensures
        spec_vision_system(world).wf(),
        spec_vision_system(world).settings() == world.settings(),
{
    lemma_same_entities_wf(spec_vision_system(world), world);
}

/// A new entity with a position and components of the kinds named keeps a
/// well-formed world well formed.
pub proof fn lemma_created_wf(world: WorldView, after: WorldView, entity_id: EntityId, position: Hex)
    requires
        world.wf(),
        world.entities.issued() == Ok::<EntityId, crate::entity::entity_tracker::OutOfCapacity>(
            entity_id,
        ),
        after.entities == world.entities.create(),
        after.position == world.position.set(entity_id, position),
        forall|other: EntityId|
            other != entity_id ==> (after.has_component(other) <==> world.has_component(other)),
    ensures
        after.wf(),
        !world.has_component(entity_id),
        !world.entities.is_live(entity_id),
{
    lemma_create_issues_fresh(world.entities);
    lemma_set_keeps_wf(world.position, entity_id, position);
    assert(!world.has_component(entity_id)) by {
        if world.has_component(entity_id) {
            assert(world.entities.is_live(entity_id));
        }
    }
    assert forall|other: EntityId| #[trigger]
        after.has_component(other) implies after.entities.is_live(other) by {
        if other != entity_id {
            assert(world.has_component(other));
        }
    }
}

/// Spawning keeps a well-formed world well formed, and the object it makes
/// is one that did not exist.
pub proof fn lemma_spawn_wf(world: WorldView, position: Hex, visible_object: VisibleObject)
    requires
        world.wf(),
    ensures
        spec_spawn(world, position, visible_object).1.wf(),
        match spec_spawn(world, position, visible_object).0 {
            Ok(entity_id) => !world.entities.is_live(entity_id) && !world.has_component(entity_id),
            Err(_) => true,
        },
{
    match world.entities.issued() {
        Ok(entity_id) => {
            lemma_created_wf(
                world,
                spec_spawn(world, position, visible_object).1,
                entity_id,
                position,
            );
        },
        Err(_) => {},
    }
}

/// Adding a ship keeps a well-formed world well formed.
pub proof fn lemma_add_ship_wf(
    world: WorldView,
    name: Seq<char>,
    position: Hex,
    color: Color,
    nav: Option<Nav>,
)
    requires
        world.wf(),
    ensures
        spec_add_ship(world, name, position, color, nav).1.wf(),
{
    match world.entities.issued() {
        Ok(entity_id) => {
            lemma_created_wf(
                world,
                spec_add_ship(world, name, position, color, nav).1,
                entity_id,
                position,
            );
        },
        Err(_) => {},
    }
}

/// Adding gravity wells keeps a well-formed world well formed.
pub proof fn lemma_add_gravity_wells_wf(world: WorldView, planet: Hex, count: int)
    requires
        world.wf(),
    ensures
        spec_add_gravity_wells(world, planet, count).1.wf(),
    decreases count,
{
    if count > 0 {
        lemma_add_gravity_wells_wf(world, planet, count - 1);
        let before = spec_add_gravity_wells(world, planet, count - 1).1;
        if spec_add_gravity_wells(world, planet, count - 1).0.is_ok() {
            match before.entities.issued() {
                Ok(entity_id) => {
                    let side = crate::hex::hex::spec_direction(count - 1);
                    lemma_created_wf(
                        before,
                        spec_add_gravity(before, planet, count - 1).1,
                        entity_id,
                        planet.spec_offset(side.q as int, side.r as int),
                    );
                },
                Err(_) => {},
            }
        }
    }
}

/// The first population, with streaming and vision after it, keeps a
/// well-formed world well formed.
pub proof fn lemma_initialize_wf(world: WorldView)
    requires
        world.wf(),
    ensures
        spec_initialize(world).1.wf(),
{
    let seeded = WorldView { seed: super::generate::INITIAL_SEED, ..world };
    lemma_same_entities_wf(seeded, world);
    let origin = Hex { q: 0, r: 0 };
    let green = crate::color::spec_opaque(30, 100, 40);
    lemma_add_ship_wf(seeded, "player"@, origin, green, None);
    match spec_add_ship(seeded, "player"@, origin, green, None) {
        (Ok(player), with_player) => {
            let steered = WorldView { player: Some(player), ..with_player };
            lemma_same_entities_wf(steered, with_player);
            let red = crate::color::spec_opaque(164, 0, 0);
            let lair = Hex { q: -20i32, r: 20 };
            lemma_add_ship_wf(steered, "enemy"@, lair, red, Some(Nav::Seek(player)));
            match spec_add_ship(steered, "enemy"@, lair, red, Some(Nav::Seek(player))) {
                (Ok(_), with_enemy) => {
                    lemma_add_gravity_wells_wf(with_enemy, Hex { q: 4, r: -1i32 }, 6);
                },
                (Err(_), _) => {},
            }
        },
        (Err(_), _) => {},
    }
    match spec_populate(world) {
        (Ok(_), populated) => {
            lemma_streaming_wf(populated);
            lemma_vision_wf(spec_streaming_system(populated));
        },
        (Err(_), _) => {},
    }
}

/// A request for thrust keeps a well-formed world well formed.
pub proof fn lemma_request_thrust_wf(world: WorldView, entity_id: EntityId, target: Hex)
    requires
        world.wf(),
    ensures
        spec_request_thrust(world, entity_id, target).wf(),
{
    lemma_same_entities_wf(spec_request_thrust(world, entity_id, target), world);
}

/// The player's input keeps a well-formed world well formed.
pub proof fn lemma_input_wf(
    world: WorldView,
    cursor: Hex,
    thrust_confirmed: bool,
    advance_requested: bool,
)
    requires
        world.wf(),
    ensures
        spec_input(world, cursor, thrust_confirmed, advance_requested).wf(),
{
    lemma_same_entities_wf(spec_input(world, cursor, thrust_confirmed, advance_requested), world);
}

/// The four systems of a turn keep a well-formed world well formed, and
/// none of them touches the settings.
pub proof fn lemma_simulate_event_wf(world: WorldView)
    requires
        world.wf(),
    ensures
        spec_simulate_event(world).wf(),
        spec_simulate_event(world).settings() == world.settings(),
{
    let steered = spec_nav_system(world);
    lemma_nav_all_keeps(world, world.entities.all());
    lemma_same_entities_wf(steered, world);
    let moved = spec_movement_system(steered);
    lemma_move_all_wf(steered, steered.entities.all());
    let streamed = spec_streaming_system(moved);
    lemma_streaming_wf(moved);
    lemma_vision_wf(streamed);
}

/// A step keeps a well-formed world well formed: after any number of turns
/// the two directions of the position index agree, and no two live
/// entities share an identifier.
pub proof fn lemma_step_wf(world: WorldView)
    requires
        world.wf(),
    ensures
        spec_step(world).wf(),
        !spec_step(world).need_simulate,
        world.need_simulate && world.turn < i32::MAX ==> spec_step(world).turn == world.turn + 1,
        !world.need_simulate ==> spec_step(world) == world,
{
    if world.need_simulate {
        let started = WorldView { collisions: Seq::empty(), ..world };
        lemma_same_entities_wf(started, world);
        lemma_simulate_event_wf(started);
        lemma_same_entities_wf(spec_step(world), spec_simulate_event(started));
    }
}

} // verus!
