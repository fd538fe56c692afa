//! World generation: the first population, and where later generation
//! takes place.

use vstd::prelude::*;
use super::laws::lemma_add_ship_wf;
use super::laws::lemma_initialize_wf;
use std::collections::VecDeque;
use super::object::Engine;
use super::object::HistoryEvent;
use super::object::Nav;
use super::object::ObjectType;
use super::object::VisibleObject;
use super::state::World;
use super::state::WorldView;
use super::streaming::simulate_generate_around_player_system;
use super::streaming::spec_streaming_system;
use super::vision::simulate_vision_system;
use super::vision::spec_vision_system;
use crate::color::green;
use crate::color::red;
use crate::color::spec_opaque;
use crate::color::white;
use crate::color::Color;
use crate::entity::entity_id::EntityId;
use crate::entity::entity_tracker::OutOfCapacity;
use crate::hex::hex::fits_i32;
use crate::hex::hex::hex;
use crate::hex::hex::spec_direction;
use crate::hex::hex::Hex;
use crate::hex::view::hex_view;
use crate::hex::view::HexOrientation;
use crate::hex::view::HexView;
use crate::hex::view::HEX_HEIGHT;
use crate::hex::view::HEX_WIDTH;
use crate::math::hash2_u32;
use crate::math::spec_hash2_u32;

verus! {

/// The seed of the world that `initialize` makes.
pub const INITIAL_SEED: u32 = 12;

/// What the world's seed is hashed with to seed the generation of objects.
pub const GENERATION_SALT: u32 = 4331;

/// How far from the origin the nearest generated object lies.
pub const ORIGIN_CLEARANCE: i32 = 4;

/// The world after a ship has been added, and the ship's identifier: a new
/// entity with a name, a position, no velocity, a history of that one
/// position, a color, an engine of power one, and its intent if it has one.
/// The world as it was where no identifier is to be had.
pub open spec fn spec_add_ship(
    world: WorldView,
    name: Seq<char>,
    position: Hex,
    color: Color,
    nav: Option<Nav>,
) -> (Result<EntityId, OutOfCapacity>, WorldView) {
    match world.entities.issued() {
        Ok(entity_id) => (
            Ok(entity_id),
            WorldView {
                entities: world.entities.create(),
                name: world.name.insert(entity_id, name),
                position: world.position.set(entity_id, position),
                velocity: world.velocity.insert(entity_id, Hex { q: 0, r: 0 }),
                history: world.history.insert(
                    entity_id,
                    seq![HistoryEvent { position, thrust_applied: 0 }],
                ),
                visible_object: world.visible_object.insert(
                    entity_id,
                    VisibleObject(ObjectType::Ship, color),
                ),
                engine: world.engine.insert(entity_id, Engine { power: 1, thrust_applied: 0 }),
                nav: match nav {
                    Some(intent) => world.nav.insert(entity_id, intent),
                    None => world.nav,
                },
                ..world
            },
        ),
        Err(error) => (Err(error), world),
    }
}

/// The world after a gravity well has been added on the side `direction`
/// of `planet`: a new white object of the kind that deflects towards the
/// planet. The world as it was where no identifier is to be had.
pub open spec fn spec_add_gravity(world: WorldView, planet: Hex, direction: int) -> (
    Result<EntityId, OutOfCapacity>,
    WorldView,
) {
    let side = spec_direction(direction);
    match world.entities.issued() {
        Ok(entity_id) => (
            Ok(entity_id),
            WorldView {
                entities: world.entities.create(),
                position: world.position.set(
                    entity_id,
                    planet.spec_offset(side.q as int, side.r as int),
                ),
                visible_object: world.visible_object.insert(
                    entity_id,
                    VisibleObject(
                        ObjectType::spec_gravity_well(direction),
                        spec_opaque(238, 238, 236),
                    ),
                ),
                ..world
            },
        ),
        Err(error) => (Err(error), world),
    }
}

/// The world after gravity wells have been added on the sides
/// `0..count` of `planet`, or as far as identifiers were to be had.
pub open spec fn spec_add_gravity_wells(world: WorldView, planet: Hex, count: int) -> (
    Result<(), OutOfCapacity>,
    WorldView,
)
    decreases count,
{
    if count <= 0 {
        (Ok(()), world)
    } else {
        match spec_add_gravity_wells(world, planet, count - 1) {
            (Ok(_), before) => match spec_add_gravity(before, planet, count - 1) {
                (Ok(_), after) => (Ok(()), after),
                (Err(error), after) => (Err(error), after),
            },
            (Err(error), before) => (Err(error), before),
        }
    }
}

/// The world after its first population, before streaming and vision: the
/// player's green ship at the origin, a red ship at `(-20, 20)` that seeks
/// the player, and the six gravity wells round the planet at `(4, -1)`.
/// Population ends where no identifier is to be had.
pub open spec fn spec_populate(world: WorldView) -> (Result<(), OutOfCapacity>, WorldView) {
    let seeded = WorldView { seed: INITIAL_SEED, ..world };
    match spec_add_ship(seeded, "player"@, Hex { q: 0, r: 0 }, spec_opaque(30, 100, 40), None) {
        (Ok(player), with_player) => {
            let steered = WorldView { player: Some(player), ..with_player };
            match spec_add_ship(
                steered,
                "enemy"@,
                Hex { q: -20i32, r: 20 },
                spec_opaque(164, 0, 0),
                Some(Nav::Seek(player)),
            ) {
                (Ok(_), with_enemy) => spec_add_gravity_wells(
                    with_enemy,
                    Hex { q: 4, r: -1i32 },
                    6,
                ),
                (Err(error), with_enemy) => (Err(error), with_enemy),
            }
        },
        (Err(error), unchanged) => (Err(error), unchanged),
    }
}

/// The world after `initialize`: populated, then streamed and seen from
/// the player's position. Streaming and vision are left out where the
/// population could not be completed.
pub open spec fn spec_initialize(world: WorldView) -> (Result<(), OutOfCapacity>, WorldView) {
    match spec_populate(world) {
        (Ok(_), populated) => (Ok(()), spec_vision_system(spec_streaming_system(populated))),
        (Err(error), partial) => (Err(error), partial),
    }
}

/// What the generation of an object at `position` starts from: the seed
/// for the noise and the pixel at which the noise is read. Nothing within
/// `ORIGIN_CLEARANCE` of the origin, where no object is generated, nor
/// where the pixel is not representable.
pub open spec fn spec_generation_site(seed: u32, position: Hex) -> Option<(u32, (i32, i32))> {
    let view = HexView {
        layout: HexOrientation::Flat,
        tile_width: HEX_WIDTH,
        tile_height: HEX_HEIGHT,
    };
    let pixel = view.spec_to_pixel(position);
    if position.spec_len() >= ORIGIN_CLEARANCE && fits_i32(pixel.0) && fits_i32(pixel.1) {
        Some((spec_hash2_u32(seed, GENERATION_SALT), (pixel.0 as i32, pixel.1 as i32)))
    } else {
        None
    }
}

/// Adds a ship to the world.
pub fn add_ship(world: &mut World, name: &str, position: Hex, color: Color, nav: Option<Nav>) -> (result:
    Result<EntityId, OutOfCapacity>)
    ensures
        result == spec_add_ship(old(world)@, name@, position, color, nav).0,
        final(world)@ == spec_add_ship(old(world)@, name@, position, color, nav).1,
        old(world)@.wf() ==> final(world)@.wf(),
{
    proof {
        if world@.wf() {
            lemma_add_ship_wf(world@, name@, position, color, nav);
        }
    }
    let entity_id: EntityId = match world.entities.create() {
        Ok(entity_id) => entity_id,
        Err(error) => {
            return Err(error);
        },
    };
    let mut history: VecDeque<HistoryEvent> = VecDeque::new();
    history.push_back(HistoryEvent { position, thrust_applied: 0 });
    world.name.set(entity_id, name.to_owned());
    world.position.set(entity_id, position);
    world.velocity.set(entity_id, hex(0, 0));
    world.history.set(entity_id, history);
    world.visible_object.set(entity_id, VisibleObject(ObjectType::Ship, color));
    world.engine.set(entity_id, Engine { power: 1, thrust_applied: 0 });
    if let Some(intent) = nav {
        world.nav.set(entity_id, intent);
    }
    proof {
        let after = spec_add_ship(old(world)@, name@, position, color, nav).1;
        assert(world@.name =~= after.name);
        assert(world@.history =~= after.history);
    }
    Ok(entity_id)
}

/// Adds a gravity well on the side `direction` of `planet`.
pub fn add_gravity(world: &mut World, planet: Hex, direction: i32) -> (result: Result<
    EntityId,
    OutOfCapacity,
>)
    requires
        fits_i32(planet.q + spec_direction(direction as int).q),
        fits_i32(planet.r + spec_direction(direction as int).r),
    ensures
        result == spec_add_gravity(old(world)@, planet, direction as int).0,
        final(world)@ == spec_add_gravity(old(world)@, planet, direction as int).1,
{
    let position: Hex = planet + Hex::direction(direction);
    let entity_id: EntityId = match world.entities.create() {
        Ok(entity_id) => entity_id,
        Err(error) => {
            return Err(error);
        },
    };
    world.position.set(entity_id, position);
    world.visible_object.set(
        entity_id,
        VisibleObject(ObjectType::gravity_well(direction), white()),
    );
    Ok(entity_id)
}

/// Populates the world for the first time, then streams and looks.
pub fn initialize(world: &mut World) -> (result: Result<(), OutOfCapacity>)
    ensures
        result == spec_initialize(old(world)@).0,
        final(world)@ == spec_initialize(old(world)@).1,
        old(world)@.wf() ==> final(world)@.wf(),
{
    proof {
        if world@.wf() {
            lemma_initialize_wf(world@);
        }
    }
    world.seed = INITIAL_SEED;
    let player: EntityId = match add_ship(world, "player", hex(0, 0), green(), None) {
        Ok(player) => player,
        Err(error) => {
            return Err(error);
        },
    };
    world.player = Some(player);
    match add_ship(world, "enemy", hex(-20, 20), red(), Some(Nav::Seek(player))) {
        Ok(_) => {},
        Err(error) => {
            return Err(error);
        },
    }
    let planet: Hex = hex(4, -1);
    let ghost with_enemy = world@;
    let mut direction: i32 = 0;
    while direction < 6
        invariant
            0 <= direction <= 6,
            planet == (Hex { q: 4, r: -1i32 }),
            old(world)@.wf() ==> spec_initialize(old(world)@).1.wf(),
            spec_populate(old(world)@) == spec_add_gravity_wells(with_enemy, planet, 6),
            spec_add_gravity_wells(with_enemy, planet, direction as int) == (
                Ok::<(), OutOfCapacity>(()),
                world@,
            ),
        decreases 6 - direction,
    {
        match add_gravity(world, planet, direction) {
            Ok(_) => {},
            Err(error) => {
                proof {
                    lemma_failure_ends_wells(with_enemy, planet, direction + 1, 6);
                }
                return Err(error);
            },
        }
        direction = direction + 1;
    }
    simulate_generate_around_player_system(world);
    simulate_vision_system(world);
    Ok(())
}

/// Once a gravity well could not be added, no further one is.
proof fn lemma_failure_ends_wells(world: WorldView, planet: Hex, failed: int, count: int)
    requires
        spec_add_gravity_wells(world, planet, failed).0.is_err(),
        failed <= count,
    ensures
        spec_add_gravity_wells(world, planet, count) == spec_add_gravity_wells(
            world,
            planet,
            failed,
        ),
    decreases count - failed,
{
    if failed < count {
        lemma_failure_ends_wells(world, planet, failed, count - 1);
    }
}

/// What the generation of an object at `position` starts from.
pub fn generation_site(seed: u32, position: Hex) -> (site: Option<(u32, (i32, i32))>)
    ensures
        site == spec_generation_site(seed, position),
{
    if !position.distance_exceeds(hex(0, 0), ORIGIN_CLEARANCE - 1) {
        return None;
    }
    match hex_view().checked_to_pixel(position) {
        Some(pixel) => Some((hash2_u32(seed, GENERATION_SALT), pixel)),
        None => None,
    }
}

} // verus!
