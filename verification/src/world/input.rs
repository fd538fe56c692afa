//! What the player asks for between turns.

use vstd::prelude::*;
use super::laws::lemma_input_wf;
use super::laws::lemma_request_thrust_wf;
use super::object::Engine;
use super::state::World;
use super::state::WorldView;
use crate::entity::entity_id::EntityId;
use crate::hex::hex::fits_i32;
use crate::hex::hex::spec_cube_len;
use crate::hex::hex::Hex;

verus! {

/// The thrust that it takes `entity_id` to end the coming turn at `target`:
/// the distance from where it would drift by itself to the target.
pub open spec fn spec_desired_thrust(world: WorldView, entity_id: EntityId, target: Hex) -> int
    recommends
        world.position.by_id.contains_key(entity_id),
        world.velocity.contains_key(entity_id),
{
    let position = world.position.by_id[entity_id];
    let velocity = world.velocity[entity_id];
    spec_cube_len(
        target.q - (position.q + velocity.q),
        target.r - (position.r + velocity.r),
    )
}

/// Whether a request of `entity_id` for thrust towards `target` is granted:
/// the entity has a position, a velocity and an engine, the thrust is
/// within the engine's power, and the velocity that leads to the target is
/// representable.
pub open spec fn spec_thrust_granted(world: WorldView, entity_id: EntityId, target: Hex) -> bool {
    &&& world.position.by_id.contains_key(entity_id)
    &&& world.velocity.contains_key(entity_id)
    &&& world.engine.contains_key(entity_id)
    &&& spec_desired_thrust(world, entity_id, target) <= world.engine[entity_id].power
    &&& fits_i32(target.q - world.position.by_id[entity_id].q)
    &&& fits_i32(target.r - world.position.by_id[entity_id].r)
}

/// The world after a request for thrust. A granted request sets the
/// velocity to lead from the position to the target, records the thrust in
/// the engine and makes a turn due. A refused request changes nothing.
pub open spec fn spec_request_thrust(world: WorldView, entity_id: EntityId, target: Hex) -> WorldView {
    if spec_thrust_granted(world, entity_id, target) {
        let position = world.position.by_id[entity_id];
        WorldView {
            engine: world.engine.insert(
                entity_id,
                Engine {
                    power: world.engine[entity_id].power,
                    thrust_applied: spec_desired_thrust(world, entity_id, target) as i32,
                },
            ),
            velocity: world.velocity.insert(
                entity_id,
                target.spec_offset(-position.q, -position.r),
            ),
            need_simulate: true,
            ..world
        }
    } else {
        world
    }
}

/// The world after the player's input of one frame. A confirmed thrust is
/// a request of the player's entity for thrust towards the cursor; if it is
/// refused, or there is no player, the rest of the input is dropped. A
/// request to advance makes a turn due.
pub open spec fn spec_input(
    world: WorldView,
    cursor: Hex,
    thrust_confirmed: bool,
    advance_requested: bool,
) -> WorldView {
    let granted = match world.player {
        Some(player) => spec_thrust_granted(world, player, cursor),
        None => false,
    };
    if thrust_confirmed && !granted {
        world
    } else {
        let thrusted = if thrust_confirmed {
            spec_request_thrust(world, world.player.unwrap(), cursor)
        } else {
            world
        };
        if advance_requested {
            WorldView { need_simulate: true, ..thrusted }
        } else {
            thrusted
        }
    }
}

/// Length of the cube vector `(q, r, -q - r)`.
fn cube_len(q: i64, r: i64) -> (n: i64)
    requires
        -0x2_0000_0000 <= q <= 0x2_0000_0000,
        -0x2_0000_0000 <= r <= 0x2_0000_0000,
    ensures
        n == spec_cube_len(q as int, r as int),
{
    let s: i64 = -q - r;
    let aq: i64 = if q < 0 { -q } else { q };
    let ar: i64 = if r < 0 { -r } else { r };
    let a_s: i64 = if s < 0 { -s } else { s };
    let m: i64 = if aq < ar { ar } else { aq };
    if m < a_s { a_s } else { m }
}

/// Asks for thrust that brings `entity_id` to `target` at the end of the
/// coming turn. Returns whether the request was granted.
pub fn request_thrust(world: &mut World, entity_id: EntityId, target: Hex) -> (granted: bool)
    ensures
        granted == spec_thrust_granted(old(world)@, entity_id, target),
        final(world)@ == spec_request_thrust(old(world)@, entity_id, target),
        !granted ==> final(world)@ == old(world)@,
        old(world)@.wf() ==> final(world)@.wf(),
{
    proof {
        if world@.wf() {
            lemma_request_thrust_wf(world@, entity_id, target);
        }
    }
    let position: Hex = match world.position.get(entity_id) {
        Some(found) => *found,
        None => {
            return false;
        },
    };
    let velocity: Hex = match world.velocity.get(entity_id) {
        Some(found) => *found,
        None => {
            return false;
        },
    };
    let engine: Engine = match world.engine.get(entity_id) {
        Some(found) => *found,
        None => {
            return false;
        },
    };
    let desired_thrust: i64 = cube_len(
        target.q as i64 - (position.q as i64 + velocity.q as i64),
        target.r as i64 - (position.r as i64 + velocity.r as i64),
    );
    if desired_thrust > engine.power as i64 {
        return false;
    }
    let new_velocity: Hex = match target.checked_sub(position) {
        Some(new_velocity) => new_velocity,
        None => {
            return false;
        },
    };
    world.engine.set(
        entity_id,
        Engine { power: engine.power, thrust_applied: desired_thrust as i32 },
    );
    world.velocity.set(entity_id, new_velocity);
    world.need_simulate = true;
    true
}

/// Takes the player's input of one frame: where the cursor is, whether a
/// thrust towards it was confirmed, and whether the turn is to advance.
pub fn input_player_thrust_system(
    world: &mut World,
    cursor_world: Hex,
    thrust_confirmed: bool,
    advance_requested: bool,
)
    ensures
        final(world)@ == spec_input(old(world)@, cursor_world, thrust_confirmed, advance_requested),
        old(world)@.wf() ==> final(world)@.wf(),
{
    proof {
        if world@.wf() {
            lemma_input_wf(world@, cursor_world, thrust_confirmed, advance_requested);
        }
    }
    if thrust_confirmed {
        let player: EntityId = match world.player {
            Some(player) => player,
            None => {
                return ;
            },
        };
        if !request_thrust(world, player, cursor_world) {
            return ;
        }
    }
    if advance_requested {
        world.need_simulate = true;
    }
}

} // verus!
