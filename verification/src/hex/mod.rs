//! Hexagonal grid geometry in axial coordinates.

pub mod hex;
pub mod line;
pub mod map;
pub mod view;
