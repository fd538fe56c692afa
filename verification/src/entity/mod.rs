//! Entity identifiers and the registry that issues and recycles them.

pub mod entity_id;
pub mod entity_tracker;
