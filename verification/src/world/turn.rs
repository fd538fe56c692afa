//! One turn of the simulation.

use vstd::prelude::*;
use super::laws::lemma_same_entities_wf;
use super::laws::lemma_simulate_event_wf;
use super::laws::lemma_step_wf;
use super::movement::simulate_movement_system;
use super::movement::spec_movement_system;
use super::nav::simulate_nav_system;
use super::nav::spec_nav_system;
use super::state::World;
use super::state::WorldView;
use super::streaming::simulate_generate_around_player_system;
use super::streaming::spec_streaming_system;
use super::vision::simulate_vision_system;
use super::vision::spec_vision_system;

verus! {

/// The world after the four systems of a turn have run: navigation,
/// movement, streaming, vision.
pub open spec fn spec_simulate_event(world: WorldView) -> WorldView {
    spec_vision_system(spec_streaming_system(spec_movement_system(spec_nav_system(world))))
}

/// The world after a step. Where no turn is due nothing happens. Where one
/// is, the list of collisions starts empty, the four systems run, no turn is
/// due any more and the turn counter has advanced by one.
pub open spec fn spec_step(world: WorldView) -> WorldView {
    if world.need_simulate {
        let after = spec_simulate_event(WorldView { collisions: Seq::empty(), ..world });
        WorldView { need_simulate: false, turn: (after.turn + 1) as i32, ..after }
    } else {
        world
    }
}

/// Runs the four systems of a turn.
pub fn simulate_event(world: &mut World)
    ensures
        final(world)@ == spec_simulate_event(old(world)@),
        final(world)@.settings() == old(world)@.settings(),
        old(world)@.wf() ==> final(world)@.wf(),
{
    proof {
        if world@.wf() {
            lemma_simulate_event_wf(world@);
        }
    }
    simulate_nav_system(world);
    simulate_movement_system(world);
    simulate_generate_around_player_system(world);
    simulate_vision_system(world);
}

/// Advances the world by one turn, if one is due.
pub fn simulate_step_system(world: &mut World)
    requires
        old(world).need_simulate ==> old(world).turn < i32::MAX,
    ensures
        final(world)@ == spec_step(old(world)@),
        !final(world)@.need_simulate,
        old(world)@.need_simulate ==> final(world)@.turn == old(world)@.turn + 1,
        old(world)@.wf() ==> final(world)@.wf(),
{
    proof {
        if world@.wf() {
            lemma_step_wf(world@);
        }
    }
    if !world.need_simulate {
        return ;
    }
    world.collisions = Vec::new();
    simulate_event(world);
    world.need_simulate = false;
    world.turn = world.turn + 1;
}

/// Makes a turn due and runs it.
pub fn advance_turn(world: &mut World)
    requires
        old(world).turn < i32::MAX,
    ensures
        final(world)@ == spec_step(WorldView { need_simulate: true, ..old(world)@ }),
        !final(world)@.need_simulate,
        final(world)@.turn == old(world)@.turn + 1,
        old(world)@.wf() ==> final(world)@.wf(),
{
    proof {
        if world@.wf() {
            lemma_same_entities_wf(WorldView { need_simulate: true, ..world@ }, world@);
        }
    }
    world.need_simulate = true;
    simulate_step_system(world);
}

} // verus!
