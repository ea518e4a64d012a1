//! Parser support tables.

pub mod micron_constants;
pub mod micron_model;
