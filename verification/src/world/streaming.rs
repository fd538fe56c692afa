//! World streaming: as the player moves, what falls out of sight is
//! destroyed and what comes into sight is listed for generation.

use vstd::prelude::*;
use super::laws::lemma_spawn_wf;
use super::laws::lemma_streaming_wf;
use super::object::VisibleObject;
use super::state::World;
use super::state::WorldView;
use crate::entity::entity_id::EntityId;
use crate::entity::entity_tracker::OutOfCapacity;
use crate::hex::hex::spec_ring_fits;
use crate::hex::hex::spec_spiral;
use crate::hex::hex::spec_spiral_len;
use crate::hex::hex::Hex;

verus! {

/// Where the player stood at the end of the last turn and, if its history
/// goes back that far, of the turn before. Nothing without a player whose
/// history holds an entry.
pub open spec fn spec_player_track(world: WorldView) -> Option<(Hex, Option<Hex>)> {
    match world.player {
        Some(player) => {
            if world.history.contains_key(player) && world.history[player].len() > 0 {
                let history = world.history[player];
                let previous = if history.len() > 1 {
                    Some(history[history.len() - 2].position)
                } else {
                    None
                };
                Some((history.last().position, previous))
            } else {
                None
            }
        },
        None => None,
    }
}

/// Whether the spiral of `radius` around `center` can be enumerated.
pub open spec fn spec_spiral_fits(center: Hex, radius: int) -> bool {
    (radius > 0 ==> spec_ring_fits(center, radius)) && spec_spiral_len(radius) <= usize::MAX
}

/// The world after each of `ids` has been destroyed, first to last.
pub open spec fn spec_destroy_all(world: WorldView, ids: Seq<EntityId>) -> WorldView
    decreases ids.len(),
{
    if ids.len() == 0 {
        world
    } else {
        spec_destroy_all(world, ids.drop_last()).remove(ids.last())
    }
}

/// The world after the occupants of those of `cells` that lie more than
/// `radius` from `current` have been destroyed, cell by cell.
pub open spec fn spec_depart(
    world: WorldView,
    cells: Seq<Hex>,
    current: Hex,
    radius: int,
) -> WorldView
    decreases cells.len(),
{
    if cells.len() == 0 {
        world
    } else {
        let before = spec_depart(world, cells.drop_last(), current, radius);
        if cells.last().spec_distance(current) > radius {
            spec_destroy_all(before, before.position.at(cells.last()))
        } else {
            before
        }
    }
}

/// Those of `cells`, in their order, that were out of sight from
/// `previous`: all of them where there is no previous position.
pub open spec fn spec_arrivals(cells: Seq<Hex>, previous: Option<Hex>, radius: int) -> Seq<Hex>
    decreases cells.len(),
{
    if cells.len() == 0 {
        cells
    } else {
        let before = spec_arrivals(cells.drop_last(), previous, radius);
        let arrives = match previous {
            Some(center) => cells.last().spec_distance(center) > radius,
            None => true,
        };
        if arrives {
            before.push(cells.last())
        } else {
            before
        }
    }
}

/// The world after streaming. The list of arrivals starts empty. Where the
/// player has moved since the turn before (or there was no turn before),
/// every entity in a cell that was within the vision radius of the previous
/// position and is not within it of the current one is destroyed, and the
/// cells within the radius of the current position that were not within it
/// of the previous one become the arrivals. Nothing happens where a spiral
/// cannot be enumerated.
pub open spec fn spec_streaming_system(world: WorldView) -> WorldView {
    let cleared = WorldView { arrivals: Seq::empty(), ..world };
    let radius = world.vision_radius as int;
    match spec_player_track(world) {
        Some((current, previous)) => {
            if previous == Some(current) || !spec_spiral_fits(current, radius) {
                cleared
            } else {
                match previous {
                    Some(center) => {
                        if spec_spiral_fits(center, radius) {
                            WorldView {
                                arrivals: spec_arrivals(
                                    spec_spiral(current, radius),
                                    previous,
                                    radius,
                                ),
                                ..spec_depart(cleared, spec_spiral(center, radius), current, radius)
                            }
                        } else {
                            cleared
                        }
                    },
                    None => WorldView {
                        arrivals: spec_arrivals(spec_spiral(current, radius), previous, radius),
                        ..cleared
                    },
                }
            }
        },
        None => cleared,
    }
}

/// The identifier that `spawn` gives a new object, and the world after it.
pub open spec fn spec_spawn(
    world: WorldView,
    position: Hex,
    visible_object: VisibleObject,
) -> (Result<EntityId, OutOfCapacity>, WorldView) {
    match world.entities.issued() {
        Ok(entity_id) => (
            Ok(entity_id),
            WorldView {
                entities: world.entities.create(),
                position: world.position.set(entity_id, position),
                visible_object: world.visible_object.insert(entity_id, visible_object),
                ..world
            },
        ),
        Err(error) => (Err(error), world),
    }
}

/// Destroys each of `ids`, first to last.
fn destroy_all(world: &mut World, ids: &Vec<EntityId>)
    ensures
        final(world)@ == spec_destroy_all(old(world)@, ids@),
        final(world)@.settings() == old(world)@.settings(),
{
    let mut i: usize = 0;
    while i < ids.len()
        invariant
            i <= ids.len(),
            world@ == spec_destroy_all(old(world)@, ids@.take(i as int)),
            world@.settings() == old(world)@.settings(),
        decreases ids.len() - i,
    {
        proof {
            assert(ids@.take(i + 1).drop_last() =~= ids@.take(i as int));
        }
        world.remove(ids[i]);
        i = i + 1;
    }
    proof {
        assert(ids@.take(i as int) =~= ids@);
    }
}

/// Destroys the occupants of those of `cells` that lie more than `radius`
/// from `current`.
fn depart(world: &mut World, cells: &Vec<Hex>, current: Hex, radius: i32)
    ensures
        final(world)@ == spec_depart(old(world)@, cells@, current, radius as int),
        final(world)@.settings() == old(world)@.settings(),
{
    let mut i: usize = 0;
    while i < cells.len()
        invariant
            i <= cells.len(),
            world@ == spec_depart(old(world)@, cells@.take(i as int), current, radius as int),
            world@.settings() == old(world)@.settings(),
        decreases cells.len() - i,
    {
        proof {
            assert(cells@.take(i + 1).drop_last() =~= cells@.take(i as int));
        }
        if cells[i].distance_exceeds(current, radius) {
            let occupants: Vec<EntityId> = world.occupants(cells[i]);
            destroy_all(world, &occupants);
        }
        i = i + 1;
    }
    proof {
        assert(cells@.take(i as int) =~= cells@);
    }
}

/// Those of `cells` that were out of sight from `previous`.
fn arrivals(cells: &Vec<Hex>, previous: Option<Hex>, radius: i32) -> (arrived: Vec<Hex>)
    ensures
        arrived@ == spec_arrivals(cells@, previous, radius as int),
{
    let mut arrived: Vec<Hex> = Vec::new();
    let mut i: usize = 0;
    while i < cells.len()
        invariant
            i <= cells.len(),
            arrived@ == spec_arrivals(cells@.take(i as int), previous, radius as int),
        decreases cells.len() - i,
    {
        proof {
            assert(cells@.take(i + 1).drop_last() =~= cells@.take(i as int));
        }
        let arrives: bool = match previous {
            Some(center) => cells[i].distance_exceeds(center, radius),
            None => true,
        };
        if arrives {
            arrived.push(cells[i]);
        }
        i = i + 1;
    }
    proof {
        assert(cells@.take(i as int) =~= cells@);
    }
    arrived
}

/// Where the player stood at the end of the last turn and of the turn
/// before.
pub fn player_track(world: &World) -> (track: Option<(Hex, Option<Hex>)>)
    ensures
        track == spec_player_track(world@),
{
    let player: EntityId = match world.player {
        Some(player) => player,
        None => {
            return None;
        },
    };
    match world.history.get(player) {
        Some(history) => {
            let len: usize = history.len();
            if len == 0 {
                None
            } else {
                let previous: Option<Hex> = if len > 1 {
                    Some(history[len - 2].position)
                } else {
                    None
                };
                Some((history[len - 1].position, previous))
            }
        },
        None => None,
    }
}

/// World streaming around the player.
pub fn simulate_generate_around_player_system(world: &mut World)
    ensures
        final(world)@ == spec_streaming_system(old(world)@),
        final(world)@.settings() == old(world)@.settings(),
        old(world)@.wf() ==> final(world)@.wf(),
{
    proof {
        if world@.wf() {
            lemma_streaming_wf(world@);
        }
    }
    let radius: i32 = world.vision_radius;
    let track: Option<(Hex, Option<Hex>)> = player_track(world);
    world.arrivals = Vec::new();
    let (current, previous): (Hex, Option<Hex>) = match track {
        Some(track) => track,
        None => {
            return ;
        },
    };
    if let Some(center) = previous {
        if center == current || !current.spiral_fits(radius) || !center.spiral_fits(radius) {
            return ;
        }
        let left: Vec<Hex> = center.spiral(radius);
        depart(world, &left, current, radius);
    } else if !current.spiral_fits(radius) {
        return ;
    }
    let entered: Vec<Hex> = current.spiral(radius);
    world.arrivals = arrivals(&entered, previous, radius);
}

/// Creates an object at `position`: a new entity with that position and
/// that kind and color. Fails, and changes nothing, when no identifier is to
/// be had.
pub fn spawn(world: &mut World, position: Hex, visible_object: VisibleObject) -> (result: Result<
    EntityId,
    OutOfCapacity,
>)
    ensures
        result == spec_spawn(old(world)@, position, visible_object).0,
        final(world)@ == spec_spawn(old(world)@, position, visible_object).1,
        final(world)@.settings() == old(world)@.settings(),
        old(world)@.wf() ==> final(world)@.wf(),
        old(world)@.wf() ==> match result {
            Ok(entity_id) => !old(world)@.entities.is_live(entity_id) && !old(
                world,
            )@.has_component(entity_id),
            Err(_) => true,
        },
{
    proof {
        if world@.wf() {
            lemma_spawn_wf(world@, position, visible_object);
        }
    }
    match world.entities.create() {
        Ok(entity_id) => {
            world.position.set(entity_id, position);
            world.visible_object.set(entity_id, visible_object);
            Ok(entity_id)
        },
        Err(error) => Err(error),
    }
}

} // verus!
