//! Built-in addons.

pub mod keyed;
pub mod preload;
pub mod preload_model;
