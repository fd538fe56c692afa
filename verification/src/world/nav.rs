//! Navigation: each entity that steers by itself picks the velocity it
//! wants and changes its own towards it, as far as its engine allows.

use vstd::prelude::*;
use super::laws::lemma_nav_all_keeps;
use super::laws::lemma_nav_entity_keeps;
use super::laws::lemma_same_entities_wf;
use super::object::Engine;
use super::object::Nav;
use super::state::World;
use super::state::WorldView;
use crate::entity::entity_id::EntityId;
use crate::hex::hex::fits_i32;
use crate::hex::hex::hex;
use crate::hex::hex::Hex;
use crate::hex::line::spec_line_step;
use crate::hex::line::spec_move_to;
use crate::hex::line::Path;
use crate::math::isqrt;
use crate::math::spec_isqrt;

verus! {

/// How many turns ahead a pursuer predicts before it settles for the
/// prediction it has. Without a limit a pursuer whose engine has no power
/// would predict for ever.
pub const SEEK_LIMIT: u32 = 1000;

/// The first of the cells that a sample of a line stands for.
pub open spec fn spec_resolve_first(step: Path) -> Hex {
    match step {
        Path::One(x) => x,
        Path::Alt(x, _) => x,
    }
}

/// The velocity wanted on the way from `position` to `target`: the point on
/// the line from the origin to `target - position` whose index is the square
/// root of the distance, rounded down. Nothing where the difference or its
/// length is not representable.
pub open spec fn spec_goto_velocity(position: Hex, target: Hex) -> Option<Hex> {
    let length = target.spec_distance(position);
    if fits_i32(target.q - position.q) && fits_i32(target.r - position.r) && length <= i32::MAX {
        let vector = target.spec_offset(-position.q, -position.r);
        Some(spec_resolve_first(spec_line_step(Hex { q: 0, r: 0 }, vector, spec_isqrt(length))))
    } else {
        None
    }
}

/// Whether a pursuer stops predicting: it has matched the target's
/// velocity, its budget of turns is spent, or the two velocities are further
/// apart than can be interpolated.
pub open spec fn spec_pursuit_ends(velocity: Hex, target_velocity: Hex, budget: nat) -> bool {
    velocity == target_velocity || budget == 0 || velocity.spec_distance(target_velocity)
        > i32::MAX
}

/// The vector from the pursuer to its target once the pursuer has matched
/// the target's velocity. `gap` is that vector now; each turn the pursuer's
/// velocity moves one throttled step towards the target's, and the gap
/// changes by the difference of the two velocities.
pub open spec fn spec_pursuit(
    gap: (int, int),
    velocity: Hex,
    target_velocity: Hex,
    power: int,
    budget: nat,
) -> (int, int)
    decreases budget,
{
    if spec_pursuit_ends(velocity, target_velocity, budget) {
        gap
    } else {
        let next = spec_move_to(velocity, target_velocity, power);
        spec_pursuit(
            (gap.0 + target_velocity.q - next.q, gap.1 + target_velocity.r - next.r),
            next,
            target_velocity,
            power,
            (budget - 1) as nat,
        )
    }
}

/// The velocity wanted by a pursuer at `position` with `velocity`: the
/// predicted vector to the target, which is taken to be one turn ahead of
/// where it is. Nothing where the target has no position or the vector is
/// not representable. A target without a velocity stands still.
pub open spec fn spec_seek_velocity(
    world: WorldView,
    position: Hex,
    velocity: Hex,
    power: i32,
    target: EntityId,
) -> Option<Hex> {
    if world.position.by_id.contains_key(target) {
        let target_position = world.position.by_id[target];
        let target_velocity = if world.velocity.contains_key(target) {
            world.velocity[target]
        } else {
            Hex { q: 0, r: 0 }
        };
        let gap = spec_pursuit(
            (
                target_position.q + target_velocity.q - position.q,
                target_position.r + target_velocity.r - position.r,
            ),
            velocity,
            target_velocity,
            power as int,
            SEEK_LIMIT as nat,
        );
        if fits_i32(gap.0) && fits_i32(gap.1) {
            Some(Hex { q: gap.0 as i32, r: gap.1 as i32 })
        } else {
            None
        }
    } else {
        None
    }
}

/// Whether navigation applies to an entity: it has an intent, a position, a
/// velocity and an engine.
pub open spec fn spec_navigates(world: WorldView, entity_id: EntityId) -> bool {
    &&& world.nav.contains_key(entity_id)
    &&& world.position.by_id.contains_key(entity_id)
    &&& world.velocity.contains_key(entity_id)
    &&& world.engine.contains_key(entity_id)
}

/// The velocity that an entity wants, by its intent.
pub open spec fn spec_desired_velocity(world: WorldView, entity_id: EntityId) -> Option<Hex>
    recommends
        spec_navigates(world, entity_id),
{
    let position = world.position.by_id[entity_id];
    match world.nav[entity_id] {
        Nav::Idle => Some(Hex { q: 0, r: 0 }),
        Nav::GoTo(target) => spec_goto_velocity(position, target),
        Nav::Seek(target) => spec_seek_velocity(
            world,
            position,
            world.velocity[entity_id],
            world.engine[entity_id].power,
            target,
        ),
    }
}

/// The world after one entity has steered: its velocity has moved towards
/// the one it wants by at most its engine's power, and its engine records
/// the size of the change. An entity to which navigation does not apply, or
/// for which a step of the computation is not representable, is left as it
/// is.
pub open spec fn spec_nav_entity(world: WorldView, entity_id: EntityId) -> WorldView {
    if spec_navigates(world, entity_id) {
        let velocity = world.velocity[entity_id];
        let engine = world.engine[entity_id];
        match spec_desired_velocity(world, entity_id) {
            Some(desired) => {
                if velocity.spec_distance(desired) <= i32::MAX {
                    let new_velocity = spec_move_to(velocity, desired, engine.power as int);
                    let thrust = new_velocity.spec_distance(velocity);
                    if thrust <= i32::MAX {
                        WorldView {
                            engine: world.engine.insert(
                                entity_id,
                                Engine { power: engine.power, thrust_applied: thrust as i32 },
                            ),
                            velocity: world.velocity.insert(entity_id, new_velocity),
                            ..world
                        }
                    } else {
                        world
                    }
                } else {
                    world
                }
            },
            None => world,
        }
    } else {
        world
    }
}

/// The world after the entities of `ids` have steered, one after the other.
pub open spec fn spec_nav_all(world: WorldView, ids: Seq<EntityId>) -> WorldView
    decreases ids.len(),
{
    if ids.len() == 0 {
        world
    } else {
        spec_nav_entity(spec_nav_all(world, ids.drop_last()), ids.last())
    }
}

/// The world after every entity has steered, in the order of their
/// identifiers.
pub open spec fn spec_nav_system(world: WorldView) -> WorldView {
    spec_nav_all(world, world.entities.all())
}

/// The velocity wanted on the way from `position` to `target`.
pub fn goto_velocity(position: Hex, target: Hex) -> (desired: Option<Hex>)
    ensures
        desired == spec_goto_velocity(position, target),
{
    let vector: Hex = match target.checked_sub(position) {
        Some(vector) => vector,
        None => {
            return None;
        },
    };
    let length: i32 = match target.checked_distance(position) {
        Some(length) => length,
        None => {
            return None;
        },
    };
    let speed: u32 = isqrt(length as u32);
    assert(speed <= length) by (nonlinear_arith)
        requires
            0 <= speed,
            speed * speed <= length,
    ;
    let origin: Hex = hex(0, 0);
    match origin.line_at(vector, speed as i32) {
        Path::One(x) => Some(x),
        Path::Alt(x, _) => Some(x),
    }
}

/// Whether a pursuer stops predicting.
fn pursuit_ends(velocity: Hex, target_velocity: Hex, budget: u32) -> (ended: bool)
    ensures
        ended == spec_pursuit_ends(velocity, target_velocity, budget as nat),
{
    velocity == target_velocity || budget == 0 || velocity.checked_distance(
        target_velocity,
    ).is_none()
}

/// The velocity wanted by a pursuer of `target`.
pub fn seek_velocity(
    world: &World,
    position: Hex,
    velocity: Hex,
    power: i32,
    target: EntityId,
) -> (desired: Option<Hex>)
    ensures
        desired == spec_seek_velocity(world@, position, velocity, power, target),
{
    let target_position: Hex = match world.position.get(target) {
        Some(found) => *found,
        None => {
            return None;
        },
    };
    let target_velocity: Hex = match world.velocity.get(target) {
        Some(found) => *found,
        None => hex(0, 0),
    };
    let mut gap_q: i64 = target_position.q as i64 + target_velocity.q as i64 - position.q as i64;
    let mut gap_r: i64 = target_position.r as i64 + target_velocity.r as i64 - position.r as i64;
    let mut chaser: Hex = velocity;
    let mut budget: u32 = SEEK_LIMIT;
    let ghost start = (gap_q as int, gap_r as int);
    let mut ended: bool = pursuit_ends(chaser, target_velocity, budget);
    while !ended
        invariant
            budget <= SEEK_LIMIT,
            ended == spec_pursuit_ends(chaser, target_velocity, budget as nat),
            -0x2_0000_0000 * (SEEK_LIMIT - budget + 1) <= gap_q <= 0x2_0000_0000 * (SEEK_LIMIT
                - budget + 1),
            -0x2_0000_0000 * (SEEK_LIMIT - budget + 1) <= gap_r <= 0x2_0000_0000 * (SEEK_LIMIT
                - budget + 1),
            spec_pursuit(start, velocity, target_velocity, power as int, SEEK_LIMIT as nat)
                == spec_pursuit(
                (gap_q as int, gap_r as int),
                chaser,
                target_velocity,
                power as int,
                budget as nat,
            ),
        decreases budget,
    {
        chaser = chaser.move_to(target_velocity, power);
        gap_q = gap_q + target_velocity.q as i64 - chaser.q as i64;
        gap_r = gap_r + target_velocity.r as i64 - chaser.r as i64;
        budget = budget - 1;
        ended = pursuit_ends(chaser, target_velocity, budget);
    }
    if -0x8000_0000 <= gap_q && gap_q <= 0x7fff_ffff && -0x8000_0000 <= gap_r && gap_r
        <= 0x7fff_ffff {
        Some(Hex { q: gap_q as i32, r: gap_r as i32 })
    } else {
        None
    }
}

/// Lets one entity steer.
pub fn nav_entity(world: &mut World, entity_id: EntityId)
    ensures
        final(world)@ == spec_nav_entity(old(world)@, entity_id),
        final(world)@.settings() == old(world)@.settings(),
        old(world)@.wf() ==> final(world)@.wf(),
{
    proof {
        if world@.wf() {
            lemma_nav_entity_keeps(world@, entity_id);
            lemma_same_entities_wf(spec_nav_entity(world@, entity_id), world@);
        }
    }
    let nav: Nav = match world.nav.get(entity_id) {
        Some(found) => *found,
        None => {
            return ;
        },
    };
    let position: Hex = match world.position.get(entity_id) {
        Some(found) => *found,
        None => {
            return ;
        },
    };
    let velocity: Hex = match world.velocity.get(entity_id) {
        Some(found) => *found,
        None => {
            return ;
        },
    };
    let engine: Engine = match world.engine.get(entity_id) {
        Some(found) => *found,
        None => {
            return ;
        },
    };
    let wanted: Option<Hex> = match nav {
        Nav::Idle => Some(hex(0, 0)),
        Nav::GoTo(target) => goto_velocity(position, target),
        Nav::Seek(target) => seek_velocity(world, position, velocity, engine.power, target),
    };
    let desired: Hex = match wanted {
        Some(desired) => desired,
        None => {
            return ;
        },
    };
    if velocity.checked_distance(desired).is_none() {
        return ;
    }
    let new_velocity: Hex = velocity.move_to(desired, engine.power);
    let thrust: i32 = match new_velocity.checked_distance(velocity) {
        Some(thrust) => thrust,
        None => {
            return ;
        },
    };
    world.engine.set(entity_id, Engine { power: engine.power, thrust_applied: thrust });
    world.velocity.set(entity_id, new_velocity);
}

/// Navigation resolution: every entity steers, in the order of their
/// identifiers.
pub fn simulate_nav_system(world: &mut World)
    ensures
        final(world)@ == spec_nav_system(old(world)@),
        final(world)@.settings() == old(world)@.settings(),
        old(world)@.wf() ==> final(world)@.wf(),
{
    proof {
        if world@.wf() {
            lemma_nav_all_keeps(world@, world@.entities.all());
            lemma_same_entities_wf(spec_nav_system(world@), world@);
        }
    }
    let ids: Vec<EntityId> = world.entities.all();
    let mut k: usize = 0;
    while k < ids.len()
        invariant
            k <= ids.len(),
            ids@ == old(world)@.entities.all(),
            world@ == spec_nav_all(old(world)@, ids@.take(k as int)),
            world@.settings() == old(world)@.settings(),
        decreases ids.len() - k,
    {
        proof {
            assert(ids@.take(k + 1).drop_last() =~= ids@.take(k as int));
        }
        nav_entity(world, ids[k]);
        k = k + 1;
    }
    proof {
        assert(ids@.take(k as int) =~= ids@);
    }
}

} // verus!
