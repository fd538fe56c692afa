use triplanetary::advance_turn;
use triplanetary::color::green;
use triplanetary::color::red;
use triplanetary::color::white;
use triplanetary::hex;
use triplanetary::initialize;
use triplanetary::input_player_thrust_system;
use triplanetary::new_entity_id;
use triplanetary::request_thrust;
use triplanetary::simulate_collision_event;
use triplanetary::simulate_collision_gravity;
use triplanetary::simulate_event;
use triplanetary::simulate_generate_around_player_system;
use triplanetary::simulate_movement_system;
use triplanetary::simulate_nav_system;
use triplanetary::simulate_step_system;
use triplanetary::simulate_vision_system;
use triplanetary::spawn;
use triplanetary::world::generate::add_gravity;
use triplanetary::world::generate::add_ship;
use triplanetary::world::nav::goto_velocity;
use triplanetary::world::nav::seek_velocity;
use triplanetary::world::streaming::player_track;
use triplanetary::Collision;
use triplanetary::Engine;
use triplanetary::EntityId;
use triplanetary::Hex;
use triplanetary::HistoryEvent;
use triplanetary::Nav;
use triplanetary::ObjectType;
use triplanetary::VisibleObject;
use triplanetary::World;

fn event(q: i32, r: i32, thrust_applied: i32) -> HistoryEvent {
    HistoryEvent { position: hex(q, r), thrust_applied }
}

/// A world whose player stands at `position` with an engine of `power`.
fn world_with_player(position: Hex, power: i32, vision_radius: i32) -> (World, EntityId) {
    let mut world = World::new();
    world.vision_radius = vision_radius;
    let player = add_ship(&mut world, "player", position, green(), None).unwrap();
    world.engine.set(player, Engine { power, thrust_applied: 0 });
    world.player = Some(player);
    (world, player)
}

fn asteroid() -> VisibleObject {
    VisibleObject(ObjectType::Asteroid, white())
}

#[test]
fn a_new_world_is_empty_and_waits() {
    let world = World::new();
    assert_eq!(world.seed, 0);
    assert_eq!(world.player, None);
    assert_eq!(world.vision_radius, 50);
    assert!(!world.need_simulate);
    assert_eq!(world.turn, 1);
    assert_eq!(world.all_entities(), vec![]);
    assert_eq!(world.collisions, vec![]);
    assert_eq!(world.arrivals, vec![]);
    assert_eq!(world.visibility(hex(0, 0)), None);
    assert_eq!(world.position(new_entity_id(0)), None);
}

#[test]
fn thrust_beyond_the_engines_power_is_refused() {
    let (mut world, player) = world_with_player(hex(0, 0), 1, 3);
    assert!(!request_thrust(&mut world, player, hex(2, -2)));
    assert_eq!(world.velocity.get(player), Some(&hex(0, 0)));
    assert_eq!(world.engine(player), Some(Engine { power: 1, thrust_applied: 0 }));
    assert!(!world.need_simulate);
    input_player_thrust_system(&mut world, hex(2, -2), true, false);
    assert_eq!(world.velocity.get(player), Some(&hex(0, 0)));
    assert!(!world.need_simulate);
    assert_eq!(world.turn, 1);
}

#[test]
fn thrust_within_the_engines_power_moves_the_entity_next_turn() {
    let (mut world, player) = world_with_player(hex(0, 0), 1, 3);
    assert!(request_thrust(&mut world, player, hex(1, -1)));
    assert_eq!(world.velocity.get(player), Some(&hex(1, -1)));
    assert_eq!(world.engine(player), Some(Engine { power: 1, thrust_applied: 1 }));
    assert!(world.need_simulate);
    simulate_step_system(&mut world);
    assert_eq!(world.position(player), Some(hex(1, -1)));
    assert_eq!(world.history(player).unwrap().len(), 2);
    assert_eq!(world.history(player), Some(vec![event(0, 0, 1), event(1, -1, 0)]));
    assert_eq!(world.engine(player), Some(Engine { power: 1, thrust_applied: 0 }));
    assert_eq!(world.velocity.get(player), Some(&hex(1, -1)));
    assert!(!world.need_simulate);
    assert_eq!(world.turn, 2);
}

#[test]
fn advance_turn_runs_a_turn_at_once() {
    let (mut world, player) = world_with_player(hex(0, 0), 1, 3);
    assert!(request_thrust(&mut world, player, hex(1, -1)));
    assert_eq!(world.velocity.get(player), Some(&hex(1, -1)));
    advance_turn(&mut world);
    assert_eq!(world.position(player), Some(hex(1, -1)));
    assert_eq!(world.history(player).unwrap().len(), 2);
    assert!(!world.need_simulate);
    assert_eq!(world.turn, 2);
    advance_turn(&mut world);
    assert_eq!(world.position(player), Some(hex(2, -2)));
    assert_eq!(world.history(player).unwrap().len(), 3);
    assert_eq!(world.turn, 3);
}

#[test]
fn thrust_is_measured_from_where_the_entity_would_drift() {
    let (mut world, player) = world_with_player(hex(2, 2), 1, 3);
    world.velocity.set(player, hex(3, 0));
    // The entity drifts to (5, 2); (6, 2) is one step from there.
    assert!(!request_thrust(&mut world, player, hex(7, 2)));
    assert!(request_thrust(&mut world, player, hex(6, 2)));
    assert_eq!(world.velocity.get(player), Some(&hex(4, 0)));
    assert_eq!(world.engine(player), Some(Engine { power: 1, thrust_applied: 1 }));
    // Drifting on takes no thrust.
    assert!(request_thrust(&mut world, player, hex(6, 2)));
    assert_eq!(world.engine(player), Some(Engine { power: 1, thrust_applied: 0 }));
}

#[test]
fn thrust_is_refused_to_an_entity_that_lacks_a_component() {
    let mut world = World::new();
    let id = world.entities.create().unwrap();
    world.position.set(id, hex(0, 0));
    world.velocity.set(id, hex(0, 0));
    assert!(!request_thrust(&mut world, id, hex(0, 0)));
    assert!(!request_thrust(&mut world, new_entity_id(44), hex(0, 0)));
    assert!(!world.need_simulate);
}

#[test]
fn input_without_a_player_is_dropped_when_thrust_is_confirmed() {
    let mut world = World::new();
    input_player_thrust_system(&mut world, hex(1, 0), true, true);
    assert!(!world.need_simulate);
    input_player_thrust_system(&mut world, hex(1, 0), false, true);
    assert!(world.need_simulate);
}

#[test]
fn a_request_to_advance_makes_a_turn_due() {
    let (mut world, player) = world_with_player(hex(0, 0), 1, 2);
    input_player_thrust_system(&mut world, hex(5, 5), false, false);
    assert!(!world.need_simulate);
    input_player_thrust_system(&mut world, hex(5, 5), false, true);
    assert!(world.need_simulate);
    simulate_step_system(&mut world);
    assert_eq!(world.turn, 2);
    assert_eq!(world.position(player), Some(hex(0, 0)));
    // A refused thrust drops the request to advance that came with it.
    input_player_thrust_system(&mut world, hex(5, 5), true, true);
    assert!(!world.need_simulate);
    input_player_thrust_system(&mut world, hex(0, 1), true, true);
    assert!(world.need_simulate);
    assert_eq!(world.velocity.get(player), Some(&hex(0, 1)));
}

#[test]
fn no_turn_runs_unless_one_is_due() {
    let (mut world, player) = world_with_player(hex(0, 0), 1, 2);
    world.velocity.set(player, hex(1, 0));
    simulate_step_system(&mut world);
    assert_eq!(world.turn, 1);
    assert_eq!(world.position(player), Some(hex(0, 0)));
    assert_eq!(world.history(player), Some(vec![event(0, 0, 0)]));
}

#[test]
fn a_sweep_through_an_asteroid_collides_with_it_once() {
    let mut world = World::new();
    let mover = world.entities.create().unwrap();
    world.position.set(mover, hex(0, 0));
    world.velocity.set(mover, hex(2, 0));
    let rock = spawn(&mut world, hex(1, 0), asteroid()).unwrap();
    let far_rock = spawn(&mut world, hex(3, 0), asteroid()).unwrap();
    world.need_simulate = true;
    simulate_step_system(&mut world);
    assert_eq!(
        world.collisions,
        vec![Collision { entity: mover, other: rock, kind: ObjectType::Asteroid }]
    );
    assert_eq!(world.position(mover), Some(hex(2, 0)));
    assert_eq!(world.position(rock), Some(hex(1, 0)));
    assert_eq!(world.position(far_rock), Some(hex(3, 0)));
    assert_eq!(world.velocity.get(mover), Some(&hex(2, 0)));
    // The next turn starts with an empty list.
    world.velocity.set(mover, hex(0, 0));
    world.need_simulate = true;
    simulate_step_system(&mut world);
    assert_eq!(world.collisions, vec![]);
}

#[test]
fn a_sweep_collides_with_what_stands_at_its_end_but_not_at_its_start() {
    let mut world = World::new();
    let mover = world.entities.create().unwrap();
    world.position.set(mover, hex(0, 0));
    world.velocity.set(mover, hex(2, 0));
    let at_start = spawn(&mut world, hex(0, 0), asteroid()).unwrap();
    let at_end = spawn(&mut world, hex(2, 0), VisibleObject(ObjectType::Ship, red())).unwrap();
    simulate_movement_system(&mut world);
    assert_eq!(
        world.collisions,
        vec![Collision { entity: mover, other: at_end, kind: ObjectType::Ship }]
    );
    assert_eq!(world.position.at(hex(2, 0)), Some(&vec![at_end, mover]));
    assert_eq!(world.position.at(hex(0, 0)), Some(&vec![at_start]));
}

#[test]
fn a_sweep_meets_every_occupant_of_a_cell_in_order() {
    let mut world = World::new();
    let mover = world.entities.create().unwrap();
    world.position.set(mover, hex(0, 0));
    world.velocity.set(mover, hex(0, 1));
    let first = spawn(&mut world, hex(0, 1), asteroid()).unwrap();
    let unseen = world.entities.create().unwrap();
    world.position.set(unseen, hex(0, 1));
    let second = spawn(&mut world, hex(0, 1), VisibleObject(ObjectType::Ship, red())).unwrap();
    simulate_movement_system(&mut world);
    assert_eq!(
        world.collisions,
        vec![
            Collision { entity: mover, other: first, kind: ObjectType::Asteroid },
            Collision { entity: mover, other: second, kind: ObjectType::Ship },
        ]
    );
}

#[test]
fn on_an_edge_the_second_cell_counts_only_if_the_first_is_empty() {
    // From (0, 0) to (1, 1) the line crosses the edge between (1, 0) and
    // (0, 1).
    let mut world = World::new();
    let mover = world.entities.create().unwrap();
    world.position.set(mover, hex(0, 0));
    world.velocity.set(mover, hex(1, 1));
    let in_second = spawn(&mut world, hex(0, 1), asteroid()).unwrap();
    simulate_movement_system(&mut world);
    assert_eq!(
        world.collisions,
        vec![Collision { entity: mover, other: in_second, kind: ObjectType::Asteroid }]
    );

    let mut world = World::new();
    let mover = world.entities.create().unwrap();
    world.position.set(mover, hex(0, 0));
    world.velocity.set(mover, hex(1, 1));
    let _in_second = spawn(&mut world, hex(0, 1), asteroid()).unwrap();
    let in_first = spawn(&mut world, hex(1, 0), asteroid()).unwrap();
    simulate_movement_system(&mut world);
    assert_eq!(
        world.collisions,
        vec![Collision { entity: mover, other: in_first, kind: ObjectType::Asteroid }]
    );
}

#[test]
fn a_gravity_well_deflects_what_passes_through_it() {
    let mut world = World::new();
    let mover = world.entities.create().unwrap();
    world.position.set(mover, hex(0, 0));
    world.velocity.set(mover, hex(2, 0));
    let well = spawn(&mut world, hex(1, 0), VisibleObject(ObjectType::Gravity0, white())).unwrap();
    simulate_movement_system(&mut world);
    assert_eq!(
        world.collisions,
        vec![Collision { entity: mover, other: well, kind: ObjectType::Gravity0 }]
    );
    // The path of this turn is not bent; the velocity is.
    assert_eq!(world.position(mover), Some(hex(2, 0)));
    assert_eq!(world.velocity.get(mover), Some(&hex(3, -1)));
}

#[test]
fn each_kind_of_gravity_well_deflects_in_its_direction() {
    let kinds = [
        ObjectType::Gravity0,
        ObjectType::Gravity1,
        ObjectType::Gravity2,
        ObjectType::Gravity3,
        ObjectType::Gravity4,
        ObjectType::Gravity5,
    ];
    for (direction, kind) in kinds.iter().enumerate() {
        assert_eq!(kind.gravity_direction(), Some(direction as i32));
        let mut world = World::new();
        let mover = world.entities.create().unwrap();
        world.velocity.set(mover, hex(10, 10));
        let well = spawn(&mut world, hex(1, 0), VisibleObject(*kind, white())).unwrap();
        simulate_collision_event(&mut world, mover, well);
        assert_eq!(
            world.velocity.get(mover),
            Some(&(hex(10, 10) + Hex::direction(direction as i32)))
        );
        assert_eq!(world.collisions.len(), 1);
    }
    assert_eq!(ObjectType::Ship.gravity_direction(), None);
    assert_eq!(ObjectType::Asteroid.gravity_direction(), None);
}

#[test]
fn gravity_leaves_an_entity_without_velocity_alone() {
    let mut world = World::new();
    let mover = world.entities.create().unwrap();
    simulate_collision_gravity(&mut world, 2, mover);
    assert!(!world.velocity.has(mover));
    world.velocity.set(mover, hex(0, i32::MAX));
    simulate_collision_gravity(&mut world, 2, mover);
    assert_eq!(world.velocity.get(mover), Some(&hex(0, i32::MAX)));
    simulate_collision_gravity(&mut world, 5, mover);
    assert_eq!(world.velocity.get(mover), Some(&hex(0, i32::MAX - 1)));
}

#[test]
fn a_collision_with_what_is_no_visible_object_leaves_no_trace() {
    let mut world = World::new();
    let mover = world.entities.create().unwrap();
    let ghost = world.entities.create().unwrap();
    world.velocity.set(mover, hex(1, 0));
    simulate_collision_event(&mut world, mover, ghost);
    assert_eq!(world.collisions, vec![]);
    assert_eq!(world.velocity.get(mover), Some(&hex(1, 0)));
}

#[test]
fn the_well_on_each_side_of_a_planet_pulls_towards_it() {
    assert_eq!(ObjectType::gravity_well(3), ObjectType::Gravity0);
    assert_eq!(ObjectType::gravity_well(4), ObjectType::Gravity1);
    assert_eq!(ObjectType::gravity_well(5), ObjectType::Gravity2);
    assert_eq!(ObjectType::gravity_well(0), ObjectType::Gravity3);
    assert_eq!(ObjectType::gravity_well(1), ObjectType::Gravity4);
    assert_eq!(ObjectType::gravity_well(2), ObjectType::Gravity5);
    for side in 0..6 {
        let pull = ObjectType::gravity_well(side).gravity_direction().unwrap();
        assert_eq!(Hex::direction(side) + Hex::direction(pull), hex(0, 0));
    }
}

#[test]
fn movement_skips_what_has_no_position_or_no_velocity() {
    let mut world = World::new();
    let still = world.entities.create().unwrap();
    world.position.set(still, hex(1, 1));
    let nowhere = world.entities.create().unwrap();
    world.velocity.set(nowhere, hex(1, 0));
    let too_far = world.entities.create().unwrap();
    world.position.set(too_far, hex(i32::MAX, 0));
    world.velocity.set(too_far, hex(1, 0));
    simulate_movement_system(&mut world);
    assert_eq!(world.position(still), Some(hex(1, 1)));
    assert_eq!(world.position(nowhere), None);
    assert_eq!(world.position(too_far), Some(hex(i32::MAX, 0)));
}

#[test]
fn the_history_of_the_player_grows_and_any_other_keeps_six_entries() {
    let (mut world, player) = world_with_player(hex(0, 0), 1, 0);
    world.velocity.set(player, hex(1, 0));
    let other = add_ship(&mut world, "other", hex(0, 5), red(), None).unwrap();
    world.velocity.set(other, hex(0, 1));
    for turn in 1..6 {
        simulate_movement_system(&mut world);
        assert_eq!(world.history(player).unwrap().len(), turn + 1);
        assert_eq!(world.history(other).unwrap().len(), turn + 1);
    }
    for turn in 6..10 {
        simulate_movement_system(&mut world);
        assert_eq!(world.history(player).unwrap().len(), turn + 1);
        assert_eq!(world.history(other).unwrap().len(), 6);
    }
    assert_eq!(
        world.history(other),
        Some(vec![
            event(0, 9, 0),
            event(0, 10, 0),
            event(0, 11, 0),
            event(0, 12, 0),
            event(0, 13, 0),
            event(0, 14, 0),
        ])
    );
    assert_eq!(world.history(player).unwrap()[0], event(0, 0, 0));
    assert_eq!(world.history(player).unwrap()[9], event(9, 0, 0));
}

#[test]
fn the_history_records_the_thrust_of_the_turn_that_followed() {
    let (mut world, player) = world_with_player(hex(0, 0), 2, 0);
    assert!(request_thrust(&mut world, player, hex(2, 0)));
    simulate_step_system(&mut world);
    assert!(request_thrust(&mut world, player, hex(5, 0)));
    simulate_step_system(&mut world);
    world.need_simulate = true;
    simulate_step_system(&mut world);
    assert_eq!(
        world.history(player),
        Some(vec![event(0, 0, 2), event(2, 0, 1), event(5, 0, 0), event(8, 0, 0)])
    );
    assert_eq!(world.turn, 4);
}

#[test]
fn an_idle_entity_brakes() {
    let mut world = World::new();
    let ship = add_ship(&mut world, "drifter", hex(0, 0), red(), Some(Nav::Idle)).unwrap();
    world.velocity.set(ship, hex(2, 0));
    simulate_nav_system(&mut world);
    assert_eq!(world.velocity.get(ship), Some(&hex(1, 0)));
    assert_eq!(world.engine(ship), Some(Engine { power: 1, thrust_applied: 1 }));
    simulate_nav_system(&mut world);
    assert_eq!(world.velocity.get(ship), Some(&hex(0, 0)));
    simulate_nav_system(&mut world);
    assert_eq!(world.velocity.get(ship), Some(&hex(0, 0)));
    assert_eq!(world.engine(ship), Some(Engine { power: 1, thrust_applied: 0 }));
}

#[test]
fn an_entity_on_its_way_wants_the_square_root_of_the_distance() {
    assert_eq!(goto_velocity(hex(0, 0), hex(9, 0)), Some(hex(3, 0)));
    assert_eq!(goto_velocity(hex(0, 0), hex(8, 0)), Some(hex(2, 0)));
    assert_eq!(goto_velocity(hex(5, 5), hex(5, 5)), Some(hex(0, 0)));
    assert_eq!(goto_velocity(hex(2, 2), hex(3, 2)), Some(hex(1, 0)));
    assert_eq!(goto_velocity(hex(1, 1), hex(-3, 5)), Some(hex(-2, 2)));
    // Towards (4, 4) the second sample lies on an edge; the first cell is
    // taken.
    assert_eq!(goto_velocity(hex(0, 0), hex(2, 2)), Some(hex(1, 1)));
    assert_eq!(goto_velocity(hex(0, 0), hex(1, 1)), Some(hex(1, 0)));
    assert_eq!(goto_velocity(hex(i32::MIN, 0), hex(i32::MAX, 0)), None);
}

#[test]
fn an_entity_on_its_way_speeds_up_by_its_engines_power() {
    let mut world = World::new();
    let ship =
        add_ship(&mut world, "courier", hex(0, 0), red(), Some(Nav::GoTo(hex(9, 0)))).unwrap();
    simulate_nav_system(&mut world);
    assert_eq!(world.velocity.get(ship), Some(&hex(1, 0)));
    assert_eq!(world.engine(ship), Some(Engine { power: 1, thrust_applied: 1 }));
    world.engine.set(ship, Engine { power: 5, thrust_applied: 0 });
    simulate_nav_system(&mut world);
    assert_eq!(world.velocity.get(ship), Some(&hex(3, 0)));
    assert_eq!(world.engine(ship), Some(Engine { power: 5, thrust_applied: 2 }));
}

#[test]
fn a_pursuer_aims_at_where_it_will_have_matched_the_targets_velocity() {
    let mut world = World::new();
    let target = world.entities.create().unwrap();
    world.position.set(target, hex(0, 5));
    // A target that stands still is aimed at where it is.
    assert_eq!(seek_velocity(&world, hex(0, 0), hex(0, 0), 1, target), Some(hex(0, 5)));
    world.velocity.set(target, hex(3, 0));
    // Three turns of speeding up, while the target gains 2 + 1 + 0.
    assert_eq!(seek_velocity(&world, hex(0, 0), hex(0, 0), 1, target), Some(hex(6, 5)));
    // With an engine strong enough the velocity is matched in one turn.
    assert_eq!(seek_velocity(&world, hex(0, 0), hex(0, 0), 3, target), Some(hex(3, 5)));
    assert_eq!(seek_velocity(&world, hex(1, 1), hex(3, 0), 1, target), Some(hex(2, 4)));
    assert_eq!(seek_velocity(&world, hex(0, 0), hex(0, 0), 1, new_entity_id(99)), None);
}

#[test]
fn a_pursuer_without_power_stops_predicting_at_the_limit() {
    let mut world = World::new();
    let target = world.entities.create().unwrap();
    world.position.set(target, hex(5, 0));
    world.velocity.set(target, hex(1, 0));
    assert_eq!(seek_velocity(&world, hex(0, 0), hex(0, 0), 0, target), Some(hex(1006, 0)));
}

#[test]
fn a_pursuer_turns_towards_its_target() {
    let mut world = World::new();
    let target = add_ship(&mut world, "target", hex(0, 5), green(), None).unwrap();
    let pursuer =
        add_ship(&mut world, "pursuer", hex(0, 0), red(), Some(Nav::Seek(target))).unwrap();
    simulate_nav_system(&mut world);
    assert_eq!(world.velocity.get(pursuer), Some(&hex(0, 1)));
    assert_eq!(world.engine(pursuer), Some(Engine { power: 1, thrust_applied: 1 }));
    assert_eq!(world.velocity.get(target), Some(&hex(0, 0)));
}

#[test]
fn a_pursuer_of_what_is_gone_is_left_alone() {
    let mut world = World::new();
    let pursuer = add_ship(
        &mut world,
        "pursuer",
        hex(0, 0),
        red(),
        Some(Nav::Seek(new_entity_id(500))),
    )
    .unwrap();
    world.velocity.set(pursuer, hex(2, 0));
    simulate_nav_system(&mut world);
    assert_eq!(world.velocity.get(pursuer), Some(&hex(2, 0)));
    assert_eq!(world.engine(pursuer), Some(Engine { power: 1, thrust_applied: 0 }));
}

#[test]
fn navigation_skips_what_lacks_a_component() {
    let mut world = World::new();
    let ship = add_ship(&mut world, "drifter", hex(0, 0), red(), Some(Nav::Idle)).unwrap();
    world.velocity.set(ship, hex(2, 0));
    world.engine.del(ship);
    simulate_nav_system(&mut world);
    assert_eq!(world.velocity.get(ship), Some(&hex(2, 0)));
}

#[test]
fn what_falls_out_of_sight_is_destroyed() {
    let (mut world, player) = world_with_player(hex(0, 0), 1, 3);
    let leaving = spawn(&mut world, hex(-3, 0), asteroid()).unwrap();
    let staying = spawn(&mut world, hex(2, 0), asteroid()).unwrap();
    let shares_cell = spawn(&mut world, hex(-3, 0), asteroid()).unwrap();
    assert!(world.all_entities().contains(&leaving));
    assert!(request_thrust(&mut world, player, hex(1, 0)));
    simulate_step_system(&mut world);
    assert_eq!(world.position(player), Some(hex(1, 0)));
    assert!(!world.all_entities().contains(&leaving));
    assert!(!world.all_entities().contains(&shares_cell));
    assert_eq!(world.position(leaving), None);
    assert_eq!(world.visible_object(leaving), None);
    assert_eq!(world.position.at(hex(-3, 0)), Some(&vec![]));
    assert_eq!(world.all_entities(), vec![player, staying]);
    assert_eq!(world.position(staying), Some(hex(2, 0)));
    assert_eq!(world.visible_object(staying), Some(asteroid()));
    assert!(!world.entities.is_live(leaving));
}

#[test]
fn what_comes_into_sight_is_listed_for_generation() {
    let (mut world, player) = world_with_player(hex(0, 0), 1, 3);
    assert!(request_thrust(&mut world, player, hex(1, 0)));
    simulate_step_system(&mut world);
    // The cells at distance 3 from (1, 0) that are at distance 4 from the
    // origin, in the order of the ring round (1, 0).
    assert_eq!(
        world.arrivals,
        vec![hex(4, -3), hex(4, -2), hex(4, -1), hex(4, 0), hex(3, 1), hex(2, 2), hex(1, 3)]
    );
    world.need_simulate = true;
    simulate_step_system(&mut world);
    assert_eq!(world.arrivals.len(), 7);
    assert!(world.arrivals.contains(&hex(5, 0)));
}

#[test]
fn streaming_waits_for_the_player_to_move() {
    let (mut world, player) = world_with_player(hex(0, 0), 1, 3);
    let rock = spawn(&mut world, hex(9, 9), asteroid()).unwrap();
    world.need_simulate = true;
    simulate_step_system(&mut world);
    assert_eq!(player_track(&world), Some((hex(0, 0), Some(hex(0, 0)))));
    assert_eq!(world.arrivals, vec![]);
    assert_eq!(world.position(rock), Some(hex(9, 9)));
}

#[test]
fn the_first_streaming_lists_all_that_is_in_sight() {
    let (mut world, _player) = world_with_player(hex(2, -1), 1, 2);
    assert_eq!(player_track(&world), Some((hex(2, -1), None)));
    simulate_generate_around_player_system(&mut world);
    assert_eq!(world.arrivals, hex(2, -1).spiral(2));
    let mut nobody = World::new();
    assert_eq!(player_track(&nobody), None);
    simulate_generate_around_player_system(&mut nobody);
    assert_eq!(nobody.arrivals, vec![]);
}

#[test]
fn spawn_creates_an_object_in_its_cell() {
    let mut world = World::new();
    let first = spawn(&mut world, hex(1, 2), asteroid()).unwrap();
    let second = spawn(&mut world, hex(1, 2), VisibleObject(ObjectType::Ship, red())).unwrap();
    assert_eq!(first, new_entity_id(0));
    assert_eq!(second, new_entity_id(1));
    assert_eq!(world.position(first), Some(hex(1, 2)));
    assert_eq!(world.visible_object(second), Some(VisibleObject(ObjectType::Ship, red())));
    assert_eq!(world.occupants(hex(1, 2)), vec![first, second]);
    assert_eq!(world.all_entities(), vec![first, second]);
}

#[test]
fn remove_takes_every_component_and_releases_the_id() {
    let mut world = World::new();
    let ship = add_ship(&mut world, "ship", hex(1, 2), red(), Some(Nav::Idle)).unwrap();
    let other = add_ship(&mut world, "other", hex(1, 2), red(), None).unwrap();
    world.remove(ship);
    assert!(!world.name.has(ship));
    assert!(!world.position.has(ship));
    assert!(!world.velocity.has(ship));
    assert!(!world.history.has(ship));
    assert!(!world.engine.has(ship));
    assert!(!world.visible_object.has(ship));
    assert!(!world.nav.has(ship));
    assert_eq!(world.history(ship), None);
    assert_eq!(world.all_entities(), vec![other]);
    assert_eq!(world.occupants(hex(1, 2)), vec![other]);
    assert_eq!(world.name.get(other), Some(&"other".to_string()));
}

#[test]
fn sight_is_blocked_behind_what_is_in_the_way() {
    let (mut world, _player) = world_with_player(hex(0, 0), 1, 3);
    let _rock = spawn(&mut world, hex(1, 0), asteroid()).unwrap();
    simulate_vision_system(&mut world);
    assert_eq!(world.visibility(hex(0, 0)), Some((true, false)));
    assert_eq!(world.visibility(hex(1, 0)), Some((true, true)));
    assert_eq!(world.visibility(hex(2, 0)), Some((false, false)));
    assert_eq!(world.visibility(hex(3, 0)), Some((false, false)));
    assert_eq!(world.visibility(hex(0, 1)), Some((true, false)));
    assert_eq!(world.visibility(hex(0, 3)), Some((true, false)));
    assert_eq!(world.visibility(hex(-1, 3)), Some((true, false)));
    assert_eq!(world.visibility(hex(4, 0)), None);
    assert_eq!(world.visibility(hex(2, 2)), None);
}

#[test]
fn sight_along_an_edge_needs_both_cells_clear() {
    // From (1, 1) the line back to the origin crosses the edge between
    // (1, 0) and (0, 1).
    let (mut world, _player) = world_with_player(hex(0, 0), 1, 2);
    let rock = spawn(&mut world, hex(0, 1), asteroid()).unwrap();
    simulate_vision_system(&mut world);
    assert_eq!(world.visibility(hex(1, 1)), Some((false, false)));
    assert_eq!(world.visibility(hex(2, 0)), Some((true, false)));
    world.remove(rock);
    simulate_vision_system(&mut world);
    assert_eq!(world.visibility(hex(1, 1)), Some((true, false)));
    assert_eq!(world.visibility(hex(0, 1)), Some((true, false)));
}

#[test]
fn sight_needs_a_player_with_a_position() {
    let mut world = World::new();
    let _rock = spawn(&mut world, hex(1, 0), asteroid()).unwrap();
    simulate_vision_system(&mut world);
    assert_eq!(world.visibility(hex(0, 0)), None);
    assert_eq!(world.visibility(hex(1, 0)), None);
}

#[test]
fn sight_moves_with_the_player() {
    let (mut world, player) = world_with_player(hex(0, 0), 1, 1);
    simulate_vision_system(&mut world);
    assert_eq!(world.visibility(hex(-1, 0)), Some((true, false)));
    assert!(request_thrust(&mut world, player, hex(1, 0)));
    simulate_step_system(&mut world);
    assert_eq!(world.visibility(hex(-1, 0)), None);
    assert_eq!(world.visibility(hex(1, 0)), Some((true, false)));
    assert_eq!(world.visibility(hex(2, 0)), Some((true, false)));
    assert_eq!(world.visibility(hex(0, 0)), Some((true, false)));
}

#[test]
fn the_grid_is_drawn_where_the_player_may_see() {
    let (mut world, _player) = world_with_player(hex(0, 0), 1, 2);
    let _rock = spawn(&mut world, hex(1, 0), asteroid()).unwrap();
    // Before the first look every cell in range is drawn.
    assert!(world.is_shown(hex(2, 0)));
    assert!(!world.is_shown(hex(3, 0)));
    simulate_vision_system(&mut world);
    assert!(world.is_shown(hex(0, 0)));
    assert!(world.is_shown(hex(1, 0)));
    assert!(!world.is_shown(hex(2, 0)));
    assert!(world.is_shown(hex(0, 2)));
    assert!(!world.is_shown(hex(0, 3)));
    let nobody = World::new();
    assert!(nobody.is_shown(hex(1000, 0)));
}

#[test]
fn a_turn_runs_navigation_before_movement() {
    let (mut world, _player) = world_with_player(hex(0, 0), 1, 2);
    let courier =
        add_ship(&mut world, "courier", hex(0, 1), red(), Some(Nav::GoTo(hex(0, 10)))).unwrap();
    simulate_event(&mut world);
    assert_eq!(world.velocity.get(courier), Some(&hex(0, 1)));
    assert_eq!(world.position(courier), Some(hex(0, 2)));
    assert_eq!(world.history(courier), Some(vec![event(0, 1, 1), event(0, 2, 0)]));
    assert_eq!(world.engine(courier), Some(Engine { power: 1, thrust_applied: 0 }));
    assert_eq!(world.turn, 1);
}

#[test]
fn initialize_populates_the_world() {
    let mut world = World::new();
    assert_eq!(initialize(&mut world), Ok(()));
    assert_eq!(world.seed, 12);
    let player = new_entity_id(0);
    let enemy = new_entity_id(1);
    assert_eq!(world.player, Some(player));
    assert_eq!(world.all_entities().len(), 8);
    assert_eq!(world.name.get(player), Some(&"player".to_string()));
    assert_eq!(world.name.get(enemy), Some(&"enemy".to_string()));
    assert_eq!(world.position(player), Some(hex(0, 0)));
    assert_eq!(world.position(enemy), Some(hex(-20, 20)));
    assert_eq!(world.velocity.get(player), Some(&hex(0, 0)));
    assert_eq!(world.history(player), Some(vec![event(0, 0, 0)]));
    assert_eq!(world.history(enemy), Some(vec![event(-20, 20, 0)]));
    assert_eq!(world.engine(player), Some(Engine { power: 1, thrust_applied: 0 }));
    assert_eq!(world.visible_object(player), Some(VisibleObject(ObjectType::Ship, green())));
    assert_eq!(world.visible_object(enemy), Some(VisibleObject(ObjectType::Ship, red())));
    assert_eq!(world.nav.get(player), None);
    assert_eq!(world.nav.get(enemy), Some(&Nav::Seek(player)));
    let wells = [
        (hex(5, -2), ObjectType::Gravity3),
        (hex(5, -1), ObjectType::Gravity4),
        (hex(4, 0), ObjectType::Gravity5),
        (hex(3, 0), ObjectType::Gravity0),
        (hex(3, -1), ObjectType::Gravity1),
        (hex(4, -2), ObjectType::Gravity2),
    ];
    for (index, (cell, kind)) in wells.iter().enumerate() {
        let well = new_entity_id(2 + index as u16);
        assert_eq!(world.position(well), Some(*cell));
        assert_eq!(world.visible_object(well), Some(VisibleObject(*kind, white())));
        assert!(!world.velocity.has(well));
    }
    assert_eq!(world.arrivals, hex(0, 0).spiral(50));
    assert_eq!(world.arrivals.len(), 7650);
    assert_eq!(world.visibility(hex(0, 0)), Some((true, false)));
    assert_eq!(world.visibility(hex(3, 0)), Some((true, true)));
    assert_eq!(world.visibility(hex(4, 0)), Some((false, true)));
    assert_eq!(world.visibility(hex(-20, 20)), Some((true, true)));
    assert_eq!(world.visibility(hex(-21, 21)), Some((false, false)));
    assert_eq!(world.visibility(hex(50, 0)), Some((false, false)));
    assert_eq!(world.visibility(hex(51, 0)), None);
    assert!(!world.need_simulate);
    assert_eq!(world.turn, 1);
}

#[test]
fn the_enemy_closes_in_on_a_player_at_rest() {
    let mut world = World::new();
    assert_eq!(initialize(&mut world), Ok(()));
    let enemy = new_entity_id(1);
    world.need_simulate = true;
    simulate_step_system(&mut world);
    assert_eq!(world.velocity.get(enemy), Some(&hex(1, -1)));
    assert_eq!(world.position(enemy), Some(hex(-19, 19)));
    world.need_simulate = true;
    simulate_step_system(&mut world);
    assert_eq!(world.velocity.get(enemy), Some(&hex(2, -2)));
    assert_eq!(world.position(enemy), Some(hex(-17, 17)));
    assert_eq!(world.turn, 3);
}

#[test]
fn add_gravity_puts_a_well_beside_the_planet() {
    let mut world = World::new();
    let well = add_gravity(&mut world, hex(4, -1), 3).unwrap();
    assert_eq!(world.position(well), Some(hex(3, 0)));
    assert_eq!(world.visible_object(well), Some(VisibleObject(ObjectType::Gravity0, white())));
}
