//! Interface state that the application shell displays.

pub mod tabs;
