//! Visibility: what the player sees from where it stands.

use vstd::prelude::*;
use super::laws::lemma_vision_wf;
use super::state::World;
use super::state::WorldView;
use super::streaming::spec_spiral_fits;
use crate::hex::hex::lemma_spiral_cell_distance;
use crate::seqs::lemma_drop_last_contains;
use crate::hex::hex::lemma_spiral_is_disc;
use crate::hex::hex::spec_spiral;
use crate::hex::hex::Hex;
use crate::hex::line::spec_line_step;
use crate::hex::line::Path;
use crate::hex::map::HexMap;

verus! {

/// Whether sight passes through a cell: the cell is known, visible and not
/// obstructed.
pub open spec fn spec_sees_through(visibility: Map<Hex, (bool, bool)>, cell: Hex) -> bool {
    visibility.contains_key(cell) && visibility[cell].0 && !visibility[cell].1
}

/// Whether a cell is visible and whether it is obstructed. It is visible if
/// sight passes through the cell one step nearer to `origin` on the line to
/// it, or through both where that step stands for two cells. It is
/// obstructed if any entity is in it.
pub open spec fn spec_cell_visibility(
    world: WorldView,
    visibility: Map<Hex, (bool, bool)>,
    origin: Hex,
    cell: Hex,
) -> (bool, bool) {
    let visible = match spec_line_step(cell, origin, 1) {
        Path::One(near) => spec_sees_through(visibility, near),
        Path::Alt(first, second) => spec_sees_through(visibility, first) && spec_sees_through(
            visibility,
            second,
        ),
    };
    (visible, world.position.at(cell).len() > 0)
}

/// The visibility map after `cells` have been looked at, first to last.
pub open spec fn spec_look(
    world: WorldView,
    visibility: Map<Hex, (bool, bool)>,
    origin: Hex,
    cells: Seq<Hex>,
) -> Map<Hex, (bool, bool)>
    decreases cells.len(),
{
    if cells.len() == 0 {
        visibility
    } else {
        let before = spec_look(world, visibility, origin, cells.drop_last());
        before.insert(cells.last(), spec_cell_visibility(world, before, origin, cells.last()))
    }
}

/// Where the player looks from: its position, if there is a player with a
/// position around which the spiral of the vision radius can be enumerated.
pub open spec fn spec_viewpoint(world: WorldView) -> Option<Hex> {
    match world.player {
        Some(player) => {
            if world.position.by_id.contains_key(player) && spec_spiral_fits(
                world.position.by_id[player],
                world.vision_radius as int,
            ) {
                Some(world.position.by_id[player])
            } else {
                None
            }
        },
        None => None,
    }
}

/// The world after the visibility map has been computed afresh: the
/// player's own cell is visible and not obstructed, and the cells of the
/// spiral of the vision radius follow, nearest first. Without a viewpoint
/// the map stays as it is.
pub open spec fn spec_vision_system(world: WorldView) -> WorldView {
    match spec_viewpoint(world) {
        Some(origin) => WorldView {
            visibility: spec_look(
                world,
                Map::empty().insert(origin, (true, false)),
                origin,
                spec_spiral(origin, world.vision_radius as int),
            ),
            ..world
        },
        None => world,
    }
}

/// Looking at cells neither forgets a cell nor changes what is known of a
/// cell that is not looked at; a cell that is looked at is known
/// afterwards, and it is obstructed exactly if it is occupied.
pub proof fn lemma_look(
    world: WorldView,
    visibility: Map<Hex, (bool, bool)>,
    origin: Hex,
    cells: Seq<Hex>,
    cell: Hex,
)
    ensures
        !cells.contains(cell) ==> spec_look(world, visibility, origin, cells).contains_key(cell)
            == visibility.contains_key(cell),
        !cells.contains(cell) && visibility.contains_key(cell) ==> spec_look(
            world,
            visibility,
            origin,
            cells,
        )[cell] == visibility[cell],
        cells.contains(cell) ==> spec_look(world, visibility, origin, cells).contains_key(cell),
        cells.contains(cell) ==> spec_look(world, visibility, origin, cells)[cell].1 == (
        world.position.at(cell).len() > 0),
    decreases cells.len(),
{
    if cells.len() > 0 {
        lemma_look(world, visibility, origin, cells.drop_last(), cell);
        lemma_drop_last_contains(cells);
    }
}

/// After vision the player's own cell is visible and not obstructed, the
/// cells that are known are those within the vision radius of it, and each
/// of the others is obstructed exactly if an entity is in it.
pub proof fn lemma_vision(world: WorldView, origin: Hex)
    requires
        spec_viewpoint(world) == Some(origin),
    ensures
        spec_vision_system(world).visibility.contains_key(origin),
        spec_vision_system(world).visibility[origin] == (true, false),
        forall|cell: Hex| #[trigger]
            spec_vision_system(world).visibility.contains_key(cell) <==> (cell == origin || 1
                <= origin.spec_distance(cell) <= world.vision_radius),
        forall|cell: Hex|
            1 <= origin.spec_distance(cell) <= world.vision_radius ==> (
            #[trigger] spec_vision_system(world).visibility[cell]).1 == (world.position.at(
                cell,
            ).len() > 0),
{
    let radius = world.vision_radius as int;
    let cells = spec_spiral(origin, radius);
    let start = Map::<Hex, (bool, bool)>::empty().insert(origin, (true, false));
    let seen = spec_vision_system(world).visibility;
    assert(seen == spec_look(world, start, origin, cells));
    lemma_spiral_is_disc(origin, radius);
    assert(!cells.contains(origin));
    lemma_look(world, start, origin, cells, origin);
    assert forall|cell: Hex| #[trigger]
        seen.contains_key(cell) <==> (cell == origin || 1 <= origin.spec_distance(cell)
            <= world.vision_radius) by {
        lemma_look(world, start, origin, cells, cell);
        assert(cells.contains(cell) <==> 1 <= origin.spec_distance(cell) <= radius);
    }
    assert forall|cell: Hex| 1 <= origin.spec_distance(cell) <= world.vision_radius implies (
    #[trigger] seen[cell]).1 == (world.position.at(cell).len() > 0) by {
        lemma_look(world, start, origin, cells, cell);
        assert(cells.contains(cell) <==> 1 <= origin.spec_distance(cell) <= radius);
    }
}

/// Whether sight passes through a cell.
fn sees_through(visibility: &HexMap<(bool, bool)>, cell: Hex) -> (through: bool)
    ensures
        through == spec_sees_through(visibility@, cell),
{
    match visibility.get(cell) {
        Some((visible, obstructed)) => *visible && !*obstructed,
        None => false,
    }
}

/// Computes the visibility map afresh from the player's position.
pub fn simulate_vision_system(world: &mut World)
    ensures
        final(world)@ == spec_vision_system(old(world)@),
        final(world)@.settings() == old(world)@.settings(),
        old(world)@.wf() ==> final(world)@.wf(),
{
    proof {
        if world@.wf() {
            lemma_vision_wf(world@);
        }
    }
    let player = match world.player {
        Some(player) => player,
        None => {
            return ;
        },
    };
    let origin: Hex = match world.position.get(player) {
        Some(found) => *found,
        None => {
            return ;
        },
    };
    let radius: i32 = world.vision_radius;
    if !origin.spiral_fits(radius) {
        return ;
    }
    let cells: Vec<Hex> = origin.spiral(radius);
    let mut visibility: HexMap<(bool, bool)> = HexMap::new();
    visibility.insert(origin, (true, false));
    let ghost start = visibility@;
    let mut i: usize = 0;
    while i < cells.len()
        invariant
            i <= cells.len(),
            cells@ == spec_spiral(origin, radius as int),
            spec_spiral_fits(origin, radius as int),
            world@ == old(world)@,
            visibility@ == spec_look(world@, start, origin, cells@.take(i as int)),
        decreases cells.len() - i,
    {
        let cell: Hex = cells[i];
        proof {
            assert(cells@.take(i + 1).drop_last() =~= cells@.take(i as int));
            assert(radius > 0) by {
                if radius <= 0 {
                    assert(spec_spiral(origin, radius as int).len() == 0);
                }
            }
            lemma_spiral_cell_distance(origin, radius as int, i as int);
        }
        let visible: bool = match cell.line_at(origin, 1) {
            Path::One(near) => sees_through(&visibility, near),
            Path::Alt(first, second) => sees_through(&visibility, first) && sees_through(
                &visibility,
                second,
            ),
        };
        let obstructed: bool = match world.position.at(cell) {
            Some(occupants) => occupants.len() > 0,
            None => false,
        };
        visibility.insert(cell, (visible, obstructed));
        i = i + 1;
    }
    proof {
        assert(cells@.take(i as int) =~= cells@);
    }
    world.visibility = visibility;
}

} // verus!
