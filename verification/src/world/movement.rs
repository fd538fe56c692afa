//! Movement: each entity sweeps along the line of its velocity, collides
//! with what it finds on the way, and ends the turn at the line's end.

use vstd::prelude::*;
use super::laws::lemma_move_all_wf;
use super::laws::lemma_move_entity_wf;
use std::collections::VecDeque;
use super::object::Collision;
use super::object::Engine;
use super::object::HistoryEvent;
use super::object::ObjectType;
use super::object::VisibleObject;
use super::state::World;
use super::state::WorldView;
use crate::entity::entity_id::EntityId;
use crate::hex::hex::fits_i32;
use crate::hex::hex::spec_direction;
use crate::hex::hex::Hex;
use crate::hex::line::spec_line_step;
use crate::hex::line::Path;

verus! {

/// How many entries the history of an entity other than the player keeps.
pub const HISTORY_LIMIT: usize = 6;

/// The world after `entity` has met `other` on its way. An occupant that is
/// no visible object is passed without a trace. Any other is recorded, and
/// a gravity well adds its deflection to the velocity of `entity`, where the
/// sum is representable.
pub open spec fn spec_collide(world: WorldView, entity: EntityId, other: EntityId) -> WorldView {
    if world.visible_object.contains_key(other) {
        let kind = world.visible_object[other].0;
        let collisions = world.collisions.push(Collision { entity, other, kind });
        match kind.spec_gravity_direction() {
            Some(direction) => {
                let pull = spec_direction(direction as int);
                if world.velocity.contains_key(entity) && fits_i32(
                    world.velocity[entity].q + pull.q,
                ) && fits_i32(world.velocity[entity].r + pull.r) {
                    WorldView {
                        collisions,
                        velocity: world.velocity.insert(
                            entity,
                            world.velocity[entity].spec_offset(pull.q as int, pull.r as int),
                        ),
                        ..world
                    }
                } else {
                    WorldView { collisions, ..world }
                }
            },
            None => WorldView { collisions, ..world },
        }
    } else {
        world
    }
}

/// The world after `entity` has met each of `others`, first to last.
pub open spec fn spec_collide_all(
    world: WorldView,
    entity: EntityId,
    others: Seq<EntityId>,
) -> WorldView
    decreases others.len(),
{
    if others.len() == 0 {
        world
    } else {
        spec_collide(spec_collide_all(world, entity, others.drop_last()), entity, others.last())
    }
}

/// The occupants that are met at one sample of a line: those of its cell,
/// or where the sample stands for two cells those of the first, and those
/// of the second only if the first is empty.
pub open spec fn spec_occupants_met(world: WorldView, step: Path) -> Seq<EntityId> {
    match step {
        Path::One(cell) => world.position.at(cell),
        Path::Alt(first, second) => if world.position.at(first).len() > 0 {
            world.position.at(first)
        } else {
            world.position.at(second)
        },
    }
}

/// The world after `entity` has swept the samples of the line from `start`
/// to `end` that come after the first and before number `upto`.
pub open spec fn spec_sweep(
    world: WorldView,
    entity: EntityId,
    start: Hex,
    end: Hex,
    upto: int,
) -> WorldView
    decreases upto,
{
    if upto <= 1 {
        world
    } else {
        let before = spec_sweep(world, entity, start, end, upto - 1);
        spec_collide_all(
            before,
            entity,
            spec_occupants_met(before, spec_line_step(start, end, upto - 1)),
        )
    }
}

/// A history after a turn that ended at `end`. The last entry so far gets
/// the thrust that the engine applied in this turn, where there is an
/// engine; then the new position is added; a capped history that has grown
/// beyond `HISTORY_LIMIT` loses its oldest entry.
pub open spec fn spec_record_history(
    history: Seq<HistoryEvent>,
    thrust: Option<i32>,
    end: Hex,
    capped: bool,
) -> Seq<HistoryEvent> {
    let marked = match thrust {
        Some(thrust_applied) if history.len() > 0 => history.update(
            history.len() - 1,
            HistoryEvent { position: history.last().position, thrust_applied },
        ),
        _ => history,
    };
    let extended = marked.push(HistoryEvent { position: end, thrust_applied: 0 });
    if capped && extended.len() > HISTORY_LIMIT {
        extended.drop_first()
    } else {
        extended
    }
}

/// The world after the turn of `entity_id` has been written to its history,
/// if it has one. The player's history is not capped.
pub open spec fn spec_record_turn(world: WorldView, entity_id: EntityId, end: Hex) -> WorldView {
    if world.history.contains_key(entity_id) {
        let thrust = if world.engine.contains_key(entity_id) {
            Some(world.engine[entity_id].thrust_applied)
        } else {
            None
        };
        WorldView {
            history: world.history.insert(
                entity_id,
                spec_record_history(
                    world.history[entity_id],
                    thrust,
                    end,
                    world.player != Some(entity_id),
                ),
            ),
            ..world
        }
    } else {
        world
    }
}

/// The world after the engine of `entity_id`, if it has one, is ready for
/// the next turn: no thrust applied.
pub open spec fn spec_rest_engine(world: WorldView, entity_id: EntityId) -> WorldView {
    if world.engine.contains_key(entity_id) {
        WorldView {
            engine: world.engine.insert(
                entity_id,
                Engine { power: world.engine[entity_id].power, thrust_applied: 0 },
            ),
            ..world
        }
    } else {
        world
    }
}

/// The world after one entity has moved: it has swept the line from its
/// position to its position plus its velocity, it stands at the line's end,
/// its history holds the turn and its engine is at rest. An entity without
/// a position or a velocity, or whose destination is not representable, is
/// left as it is.
pub open spec fn spec_move_entity(world: WorldView, entity_id: EntityId) -> WorldView {
    if world.position.by_id.contains_key(entity_id) && world.velocity.contains_key(entity_id) {
        let start = world.position.by_id[entity_id];
        let velocity = world.velocity[entity_id];
        if fits_i32(start.q + velocity.q) && fits_i32(start.r + velocity.r) && velocity.spec_len()
            <= i32::MAX {
            let end = start.spec_offset(velocity.q as int, velocity.r as int);
            let swept = spec_sweep(world, entity_id, start, end, velocity.spec_len() + 1);
            let moved = WorldView { position: swept.position.set(entity_id, end), ..swept };
            spec_rest_engine(spec_record_turn(moved, entity_id, end), entity_id)
        } else {
            world
        }
    } else {
        world
    }
}

/// The world after the entities of `ids` have moved, one after the other.
pub open spec fn spec_move_all(world: WorldView, ids: Seq<EntityId>) -> WorldView
    decreases ids.len(),
{
    if ids.len() == 0 {
        world
    } else {
        spec_move_entity(spec_move_all(world, ids.drop_last()), ids.last())
    }
}

/// The world after every entity has moved, in the order of their
/// identifiers.
pub open spec fn spec_movement_system(world: WorldView) -> WorldView {
    spec_move_all(world, world.entities.all())
}

/// A capped history that was within its limit stays within it; any
/// history ends with the position just reached, with no thrust applied yet.
pub proof fn lemma_history_bounded(
    history: Seq<HistoryEvent>,
    thrust: Option<i32>,
    end: Hex,
    capped: bool,
)
    ensures
        spec_record_history(history, thrust, end, capped).last() == (HistoryEvent {
            position: end,
            thrust_applied: 0,
        }),
        capped && history.len() <= HISTORY_LIMIT ==> spec_record_history(
            history,
            thrust,
            end,
            capped,
        ).len() <= HISTORY_LIMIT,
        !capped ==> spec_record_history(history, thrust, end, capped).len() == history.len() + 1,
{
}

/// Records that `entity` has met `other`, and deflects it if `other` is a
/// gravity well.
pub fn simulate_collision_event(world: &mut World, entity: EntityId, other: EntityId)
    ensures
        final(world)@ == spec_collide(old(world)@, entity, other),
        final(world)@.settings() == old(world)@.settings(),
{
    let kind: ObjectType = match world.visible_object.get(other) {
        Some(VisibleObject(kind, _)) => *kind,
        None => {
            return ;
        },
    };
    world.collisions.push(Collision { entity, other, kind });
    match kind.gravity_direction() {
        Some(direction) => simulate_collision_gravity(world, direction, entity),
        None => {},
    }
}

/// Adds the unit vector number `direction` to the velocity of `entity_id`,
/// if it has a velocity and the sum is representable.
pub fn simulate_collision_gravity(world: &mut World, direction: i32, entity_id: EntityId)
    ensures
        final(world)@ == (if old(world)@.velocity.contains_key(entity_id) && fits_i32(
            old(world)@.velocity[entity_id].q + spec_direction(direction as int).q,
        ) && fits_i32(old(world)@.velocity[entity_id].r + spec_direction(direction as int).r) {
            WorldView {
                velocity: old(world)@.velocity.insert(
                    entity_id,
                    old(world)@.velocity[entity_id].spec_offset(
                        spec_direction(direction as int).q as int,
                        spec_direction(direction as int).r as int,
                    ),
                ),
                ..old(world)@
            }
        } else {
            old(world)@
        }),
        final(world)@.settings() == old(world)@.settings(),
{
    let velocity: Hex = match world.velocity.get(entity_id) {
        Some(found) => *found,
        None => {
            return ;
        },
    };
    match velocity.checked_add(Hex::direction(direction)) {
        Some(deflected) => {
            world.velocity.set(entity_id, deflected);
        },
        None => {},
    }
}

/// The occupants that are met at one sample of a line, as they are now.
pub fn occupants_met(world: &World, step: Path) -> (occupants: Vec<EntityId>)
    ensures
        occupants@ == spec_occupants_met(world@, step),
{
    match step {
        Path::One(cell) => world.occupants(cell),
        Path::Alt(first, second) => {
            let occupants: Vec<EntityId> = world.occupants(first);
            if occupants.len() > 0 {
                occupants
            } else {
                world.occupants(second)
            }
        },
    }
}

/// Lets `entity` meet each of `others`, first to last.
fn collide_all(world: &mut World, entity: EntityId, others: &Vec<EntityId>)
    ensures
        final(world)@ == spec_collide_all(old(world)@, entity, others@),
        final(world)@.settings() == old(world)@.settings(),
{
    let mut i: usize = 0;
    while i < others.len()
        invariant
            i <= others.len(),
            world@ == spec_collide_all(old(world)@, entity, others@.take(i as int)),
            world@.settings() == old(world)@.settings(),
        decreases others.len() - i,
    {
        proof {
            assert(others@.take(i + 1).drop_last() =~= others@.take(i as int));
        }
        simulate_collision_event(world, entity, others[i]);
        i = i + 1;
    }
    proof {
        assert(others@.take(i as int) =~= others@);
    }
}

/// Writes a turn that ended at `end` to a history.
fn record_history(
    history: &mut VecDeque<HistoryEvent>,
    thrust: Option<i32>,
    end: Hex,
    capped: bool,
)
    ensures
        final(history)@ == spec_record_history(old(history)@, thrust, end, capped),
{
    if let Some(thrust_applied) = thrust {
        if let Some(last) = history.pop_back() {
            history.push_back(HistoryEvent { position: last.position, thrust_applied });
            proof {
                assert(history@ =~= old(history)@.update(
                    old(history)@.len() - 1,
                    HistoryEvent { position: old(history)@.last().position, thrust_applied },
                ));
            }
        }
    }
    history.push_back(HistoryEvent { position: end, thrust_applied: 0 });
    if capped && history.len() > HISTORY_LIMIT {
        let ghost extended = history@;
        history.pop_front();
        proof {
            assert(history@ =~= extended.drop_first());
        }
    }
}

/// Moves one entity for this turn.
pub fn move_entity(world: &mut World, entity_id: EntityId)
    ensures
        final(world)@ == spec_move_entity(old(world)@, entity_id),
        final(world)@.settings() == old(world)@.settings(),
        old(world)@.wf() ==> final(world)@.wf(),
{
    proof {
        if world@.wf() {
            lemma_move_entity_wf(world@, entity_id);
        }
    }
    let start: Hex = match world.position.get(entity_id) {
        Some(found) => *found,
        None => {
            return ;
        },
    };
    let velocity: Hex = match world.velocity.get(entity_id) {
        Some(found) => *found,
        None => {
            return ;
        },
    };
    let end: Hex = match start.checked_add(velocity) {
        Some(end) => end,
        None => {
            return ;
        },
    };
    let distance: i32 = match start.checked_distance(end) {
        Some(distance) => distance,
        None => {
            return ;
        },
    };
    let mut done: i32 = 0;
    while done < distance
        invariant
            0 <= done <= distance,
            distance == start.spec_distance(end),
            world@ == spec_sweep(old(world)@, entity_id, start, end, done + 1),
            world@.settings() == old(world)@.settings(),
        decreases distance - done,
    {
        let step: Path = start.line_at(end, done + 1);
        let occupants: Vec<EntityId> = occupants_met(world, step);
        collide_all(world, entity_id, &occupants);
        done = done + 1;
    }
    world.position.set(entity_id, end);
    let thrust: Option<i32> = match world.engine.get(entity_id) {
        Some(engine) => Some(engine.thrust_applied),
        None => None,
    };
    let capped: bool = match world.player {
        Some(player) => player != entity_id,
        None => true,
    };
    let ghost moved = world@;
    match world.history.get_mut(entity_id) {
        Some(history) => {
            record_history(history, thrust, end, capped);
        },
        None => {},
    }
    proof {
        assert(world@.history =~= spec_record_turn(moved, entity_id, end).history);
    }
    let power: Option<i32> = match world.engine.get(entity_id) {
        Some(engine) => Some(engine.power),
        None => None,
    };
    if let Some(power) = power {
        world.engine.set(entity_id, Engine { power, thrust_applied: 0 });
    }
}

/// Swept movement and collision: every entity moves, in the order of their
/// identifiers.
pub fn simulate_movement_system(world: &mut World)
    ensures
        final(world)@ == spec_movement_system(old(world)@),
        final(world)@.settings() == old(world)@.settings(),
        old(world)@.wf() ==> final(world)@.wf(),
{
    proof {
        if world@.wf() {
            lemma_move_all_wf(world@, world@.entities.all());
        }
    }
    let ids: Vec<EntityId> = world.entities.all();
    let mut k: usize = 0;
    while k < ids.len()
        invariant
            k <= ids.len(),
            ids@ == old(world)@.entities.all(),
            world@ == spec_move_all(old(world)@, ids@.take(k as int)),
            world@.settings() == old(world)@.settings(),
        decreases ids.len() - k,
    {
        proof {
            assert(ids@.take(k + 1).drop_last() =~= ids@.take(k as int));
        }
        move_entity(world, ids[k]);
        k = k + 1;
    }
    proof {
        assert(ids@.take(k as int) =~= ids@);
    }
}

} // verus!
