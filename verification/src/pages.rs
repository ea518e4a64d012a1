//! Page-level services around the renderer.

pub mod caching;
