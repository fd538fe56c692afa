//! Sparse per-entity storage.

pub mod components;
pub mod positions;
