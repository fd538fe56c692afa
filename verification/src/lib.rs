//! Turn-driven simulation core of a tactical space game on a hexagonal grid.
//!
//! Entities occupy cells of an infinite hexagonal lattice, move by their
//! velocity once per turn, collide along the swept line of their movement,
//! and are created and destroyed as the player's sight moves over the world.

pub mod anchor;
pub mod camera;
pub mod color;
pub mod component;
pub mod entity;
pub mod hex;
pub mod math;
pub mod seqs;
pub mod world;

pub use crate::anchor::anchor_offset;
pub use crate::anchor::Anchor;
pub use crate::camera::input_mouse_pan_system;
pub use crate::camera::Camera;
pub use crate::color::Color;
pub use crate::component::components::Components;
pub use crate::component::positions::Positions;
pub use crate::entity::entity_id::index_of_entity_id;
pub use crate::entity::entity_id::new_entity_id;
pub use crate::entity::entity_id::EntityId;
pub use crate::entity::entity_tracker::EntityTracker;
pub use crate::entity::entity_tracker::OutOfCapacity;
pub use crate::entity::entity_tracker::ENTITY_MAX;
pub use crate::entity::entity_tracker::REUSE_SIZE;
pub use crate::hex::hex::add_ring;
pub use crate::hex::hex::hex;
pub use crate::hex::hex::Hex;
pub use crate::hex::line::Path;
pub use crate::hex::map::HexMap;
pub use crate::hex::view::hex_view;
pub use crate::hex::view::HexOrientation;
pub use crate::hex::view::HexView;
pub use crate::hex::view::HEX_HEIGHT;
pub use crate::hex::view::HEX_WIDTH;
pub use crate::math::hash2_u32;
pub use crate::math::hash_u32;
pub use crate::math::isqrt;
pub use crate::world::generate::generation_site;
pub use crate::world::generate::initialize;
pub use crate::world::input::input_player_thrust_system;
pub use crate::world::input::request_thrust;
pub use crate::world::movement::simulate_collision_event;
pub use crate::world::movement::simulate_collision_gravity;
pub use crate::world::movement::simulate_movement_system;
pub use crate::world::nav::simulate_nav_system;
pub use crate::world::object::Collision;
pub use crate::world::object::Engine;
pub use crate::world::object::HistoryEvent;
pub use crate::world::object::Nav;
pub use crate::world::object::ObjectType;
pub use crate::world::object::VisibleObject;
pub use crate::world::state::World;
pub use crate::world::streaming::simulate_generate_around_player_system;
pub use crate::world::streaming::spawn;
pub use crate::world::turn::advance_turn;
pub use crate::world::turn::simulate_event;
pub use crate::world::turn::simulate_step_system;
pub use crate::world::vision::simulate_vision_system;
