//! Renderers for page content: the Micron markup renderer and its
//! supporting parser tables.

pub mod mu_renderer;
pub mod parsers;
