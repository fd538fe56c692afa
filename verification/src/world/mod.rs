//! The simulated world and the systems that advance it turn by turn.

pub mod generate;
pub mod input;
pub mod laws;
pub mod movement;
pub mod nav;
pub mod object;
pub mod state;
pub mod streaming;
pub mod turn;
pub mod vision;
